//! The rows of the endpoint picker.

use crate::text::{copy_option, to_decimal};
use crate::text;
use vstd::prelude::*;

verus! {

/// The tag of the row that pins nothing.
pub const AUTO_ROUTE_SENTINEL_TAG: &'static str = "";

/// An upstream that can be picked.
#[derive(Debug, PartialEq, Eq)]
pub struct EndpointEntry {
    /// What requests are routed by; empty for the row that pins nothing.
    pub tag: String,
    pub provider_name: String,
    /// The uptime of the last half hour in per cent, with one decimal.
    pub uptime_30m: Option<String>,
    pub prompt_price: Option<String>,
    pub completion_price: Option<String>,
    pub quantization: Option<String>,
    pub max_completion_tokens: Option<u32>,
    /// Whether the session is pinned to it.
    pub is_active: bool,
}

/// The text, or another where there is none.
pub open spec fn text_or(text: Option<String>, otherwise: Seq<char>) -> Seq<char> {
    match text {
        Some(t) => t@,
        None => otherwise,
    }
}

/// The text, or another where there is none.
fn text_or_else(text: &Option<String>, otherwise: &str) -> (shown: String)
    ensures
        shown@ == text_or(*text, otherwise@),
{
    match text {
        Some(t) => t.clone(),
        None => otherwise.to_owned(),
    }
}

/// One line of a picker's preview.
#[derive(Debug, PartialEq, Eq)]
pub enum PreviewLine {
    /// A remark, muted.
    Note(&'static str),
    /// A muted label and its value.
    Field { label: &'static str, value: String },
}

/// The value of a [`PreviewLine`].
pub ghost enum PreviewView {
    Note(Seq<char>),
    Field(Seq<char>, Seq<char>),
}

impl View for PreviewLine {
    type V = PreviewView;

    open spec fn view(&self) -> PreviewView {
        match self {
            PreviewLine::Note(note) => PreviewView::Note(note@),
            PreviewLine::Field { label, value } => PreviewView::Field(label@, value@),
        }
    }
}

/// The values of a sequence of lines.
pub open spec fn preview_views(lines: Seq<PreviewLine>) -> Seq<PreviewView> {
    lines.map_values(|l: PreviewLine| l@)
}

/// How a part of a picker's row is drawn.
#[derive(Clone, Copy, Debug, PartialEq, Eq, Structural)]
pub enum RowStyle {
    /// The mark of the active row, bold in its colour.
    ActiveMarker,
    Plain,
    /// On the background of the selected row.
    Selected,
}

/// One part of a picker's row.
#[derive(Debug, PartialEq, Eq)]
pub struct RowSpan {
    pub text: String,
    pub style: RowStyle,
    /// Whether matched characters are marked in it.
    pub highlighted: bool,
}

/// The value of a [`RowSpan`].
pub ghost struct SpanView {
    pub text: Seq<char>,
    pub style: RowStyle,
    pub highlighted: bool,
}

impl View for RowSpan {
    type V = SpanView;

    open spec fn view(&self) -> SpanView {
        SpanView { text: self.text@, style: self.style, highlighted: self.highlighted }
    }
}

/// The values of a sequence of parts.
pub open spec fn span_views(spans: Seq<RowSpan>) -> Seq<SpanView> {
    spans.map_values(|s: RowSpan| s@)
}

/// The parts of a row: the marker of the active one, the name, and the tag in
/// brackets. Where characters of the name are highlighted, the gap behind it
/// is a part of its own.
pub open spec fn row_of(
    name: Seq<char>,
    tag: Seq<char>,
    is_active: bool,
    is_selected: bool,
    highlighted: bool,
) -> Seq<SpanView> {
    let style = if is_selected {
        RowStyle::Selected
    } else {
        RowStyle::Plain
    };
    let marker = if is_active {
        SpanView { text: "● "@, style: RowStyle::ActiveMarker, highlighted: false }
    } else {
        SpanView { text: "  "@, style: RowStyle::Plain, highlighted: false }
    };
    let suffix = if tag.len() == 0 {
        "(auto-route)"@
    } else {
        "("@ + tag + ")"@
    };
    let names = if highlighted {
        seq![
            SpanView { text: name, style, highlighted: true },
            SpanView { text: "  "@, style, highlighted: false },
        ]
    } else {
        seq![SpanView { text: name + "  "@, style, highlighted: false }]
    };
    seq![marker] + names + seq![SpanView { text: suffix, style, highlighted: false }]
}

/// The parts of a row.
fn render_endpoint_row(
    name: &str,
    tag: &str,
    is_active: bool,
    is_selected: bool,
    highlighted: bool,
) -> (spans: Vec<RowSpan>)
    ensures
        span_views(spans@) == row_of(name@, tag@, is_active, is_selected, highlighted),
{
    let style = if is_selected {
        RowStyle::Selected
    } else {
        RowStyle::Plain
    };
    let mut spans: Vec<RowSpan> = Vec::new();
    if is_active {
        spans.push(
            RowSpan { text: "● ".to_owned(), style: RowStyle::ActiveMarker, highlighted: false },
        );
    } else {
        spans.push(RowSpan { text: "  ".to_owned(), style: RowStyle::Plain, highlighted: false });
    }
    if highlighted {
        spans.push(RowSpan { text: name.to_owned(), style, highlighted: true });
        spans.push(RowSpan { text: "  ".to_owned(), style, highlighted: false });
    } else {
        let mut spaced = name.to_owned();
        spaced.append("  ");
        spans.push(RowSpan { text: spaced, style, highlighted: false });
    }
    let mut suffix = "(".to_owned();
    if tag.is_empty() {
        suffix = "(auto-route)".to_owned();
    } else {
        suffix.append(tag);
        suffix.append(")");
    }
    spans.push(RowSpan { text: suffix, style, highlighted: false });
    assert(span_views(spans@) =~= row_of(name@, tag@, is_active, is_selected, highlighted));
    spans
}

impl EndpointEntry {
    /// The row that pins nothing.
    pub fn auto_route(is_active: bool) -> (entry: EndpointEntry)
        ensures
            entry.tag@ == AUTO_ROUTE_SENTINEL_TAG@,
            entry.provider_name@ == "Default"@,
            entry.uptime_30m is None,
            entry.prompt_price is None,
            entry.completion_price is None,
            entry.quantization is None,
            entry.max_completion_tokens is None,
            entry.is_active == is_active,
    {
        EndpointEntry {
            tag: AUTO_ROUTE_SENTINEL_TAG.to_owned(),
            provider_name: "Default".to_owned(),
            uptime_30m: None,
            prompt_price: None,
            completion_price: None,
            quantization: None,
            max_completion_tokens: None,
            is_active,
        }
    }

    /// Uptime and quantization in one line.
    pub open spec fn availability(self) -> Seq<char> {
        let uptime = match self.uptime_30m {
            Some(u) => "uptime "@ + u@ + "%"@,
            None => "uptime unknown"@,
        };
        uptime + " · "@ + text_or(self.quantization, "quant unknown"@)
    }

    /// Uptime and quantization in one line.
    pub fn availability_summary(&self) -> (summary: String)
        ensures
            summary@ == self.availability(),
    {
        let mut summary = match &self.uptime_30m {
            Some(u) => {
                let mut uptime = "uptime ".to_owned();
                uptime.append(u.as_str());
                uptime.append("%");
                uptime
            },
            None => "uptime unknown".to_owned(),
        };
        summary.append(" · ");
        let quant = text_or_else(&self.quantization, "quant unknown");
        summary.append(quant.as_str());
        summary
    }

    /// The label of the row.
    pub fn display_label(&self) -> (label: &str)
        ensures
            label@ == self.provider_name@,
    {
        self.provider_name.as_str()
    }

    /// The identity of the row in a tree.
    pub fn id(&self) -> (id: &str)
        ensures
            id@ == (if self.tag@.len() == 0 {
                "__auto_route__"@
            } else {
                self.tag@
            }),
    {
        if self.tag.as_str().is_empty() {
            "__auto_route__"
        } else {
            self.tag.as_str()
        }
    }

    /// The row above this one in a tree: there is none.
    pub fn parent_id(&self) -> (parent: Option<&str>)
        ensures
            parent is None,
    {
        None
    }

    /// What the preview is cached under; nothing for the row that pins
    /// nothing.
    pub fn cache_key(&self) -> (key: Option<String>)
        ensures
            key == (if self.tag@.len() == 0 {
                None
            } else {
                Some(self.tag)
            }),
    {
        if self.tag.as_str().is_empty() {
            None
        } else {
            Some(self.tag.clone())
        }
    }

    /// The parts of the row.
    pub fn render_row(&self, is_selected: bool) -> (spans: Vec<RowSpan>)
        ensures
            span_views(spans@) == row_of(
                self.provider_name@,
                self.tag@,
                self.is_active,
                is_selected,
                false,
            ),
    {
        render_endpoint_row(
            self.provider_name.as_str(),
            self.tag.as_str(),
            self.is_active,
            is_selected,
            false,
        )
    }

    /// The parts of the row, with matched characters of the name to mark where
    /// there are some.
    pub fn render_row_with_highlight(&self, is_selected: bool, matches: usize) -> (spans: Vec<
        RowSpan,
    >)
        ensures
            span_views(spans@) == row_of(
                self.provider_name@,
                self.tag@,
                self.is_active,
                is_selected,
                matches > 0,
            ),
    {
        render_endpoint_row(
            self.provider_name.as_str(),
            self.tag.as_str(),
            self.is_active,
            is_selected,
            matches > 0,
        )
    }

    /// The lines of the preview.
    pub open spec fn preview(self) -> Seq<PreviewView> {
        let unknown = "unknown"@;
        if self.tag@.len() == 0 {
            seq![PreviewView::Note("Let OpenRouter choose the upstream each turn."@)]
        } else {
            seq![
                PreviewView::Field("Tag"@, self.tag@),
                PreviewView::Field(
                    "Uptime (30m)"@,
                    match self.uptime_30m {
                        Some(u) => u@ + "%"@,
                        None => unknown,
                    },
                ),
                PreviewView::Field("Quantization"@, text_or(self.quantization, unknown)),
                PreviewView::Field("Prompt price"@, text_or(self.prompt_price, unknown)),
                PreviewView::Field("Completion price"@, text_or(self.completion_price, unknown)),
                PreviewView::Field(
                    "Max completion"@,
                    match self.max_completion_tokens {
                        Some(n) => text::decimal(n as nat),
                        None => unknown,
                    },
                ),
            ]
        }
    }

    /// The lines of the preview.
    pub fn preview_lines(&self) -> (lines: Vec<PreviewLine>)
        ensures
            preview_views(lines@) == self.preview(),
    {
        let mut lines: Vec<PreviewLine> = Vec::new();
        if self.tag.as_str().is_empty() {
            lines.push(PreviewLine::Note("Let OpenRouter choose the upstream each turn."));
            assert(preview_views(lines@) =~= self.preview());
            return lines;
        }
        let uptime = match copy_option(&self.uptime_30m) {
            Some(u) => {
                let mut shown = u;
                shown.append("%");
                shown
            },
            None => "unknown".to_owned(),
        };
        let max_tokens = match self.max_completion_tokens {
            Some(n) => to_decimal(n as usize),
            None => "unknown".to_owned(),
        };
        lines.push(PreviewLine::Field { label: "Tag", value: self.tag.clone() });
        lines.push(PreviewLine::Field { label: "Uptime (30m)", value: uptime });
        lines.push(
            PreviewLine::Field {
                label: "Quantization",
                value: text_or_else(&self.quantization, "unknown"),
            },
        );
        lines.push(
            PreviewLine::Field {
                label: "Prompt price",
                value: text_or_else(&self.prompt_price, "unknown"),
            },
        );
        lines.push(
            PreviewLine::Field {
                label: "Completion price",
                value: text_or_else(&self.completion_price, "unknown"),
            },
        );
        lines.push(PreviewLine::Field { label: "Max completion", value: max_tokens });
        assert(preview_views(lines@) =~= self.preview());
        lines
    }
}

/// A row reads the same whether or not characters are marked in it: the marker
/// of the active endpoint, the name, and the tag in brackets. Characters are
/// marked in the name alone, and a selected row is selected behind its marker.
pub proof fn lemma_row_reads(
    name: Seq<char>,
    tag: Seq<char>,
    is_active: bool,
    is_selected: bool,
    highlighted: bool,
)
    ensures
        ({
            let row = row_of(name, tag, is_active, is_selected, highlighted);
            &&& row.map_values(|s: SpanView| s.text).flatten() == (if is_active {
                "● "@
            } else {
                "  "@
            }) + name + "  "@ + (if tag.len() == 0 {
                "(auto-route)"@
            } else {
                "("@ + tag + ")"@
            })
            &&& forall|i: int|
                0 <= i < row.len() && (#[trigger] row[i]).highlighted ==> highlighted && i == 1
                    && row[i].text == name
            &&& highlighted ==> row[1].highlighted
            &&& row.len() >= 3
            &&& row[0].style == if is_active {
                RowStyle::ActiveMarker
            } else {
                RowStyle::Plain
            }
            &&& forall|i: int|
                1 <= i < row.len() ==> (#[trigger] row[i]).style == if is_selected {
                    RowStyle::Selected
                } else {
                    RowStyle::Plain
                }
        }),
{
    let row = row_of(name, tag, is_active, is_selected, highlighted);
    let parts = row.map_values(|s: SpanView| s.text);
    let marker = row[0].text;
    let suffix = row[row.len() - 1].text;
    reveal_with_fuel(Seq::flatten, 5);
    if highlighted {
        assert(parts =~= seq![marker, name, "  "@, suffix]);
        assert(parts.drop_first() =~= seq![name, "  "@, suffix]);
        assert(parts.drop_first().drop_first() =~= seq!["  "@, suffix]);
        assert(parts.drop_first().drop_first().drop_first() =~= seq![suffix]);
        assert(parts.flatten() =~= marker + name + "  "@ + suffix);
    } else {
        assert(parts =~= seq![marker, name + "  "@, suffix]);
        assert(parts.drop_first() =~= seq![name + "  "@, suffix]);
        assert(parts.drop_first().drop_first() =~= seq![suffix]);
        assert(parts.flatten() =~= marker + name + "  "@ + suffix);
    }
}

/// The summary gives the uptime in per cent and the quantization, and says of
/// each that it is unknown where it is.
pub proof fn lemma_availability_tells(entry: EndpointEntry)
    ensures
        entry.uptime_30m matches Some(u) ==> entry.availability() == "uptime "@ + u@ + "%"@
            + " · "@ + match entry.quantization {
            Some(q) => q@,
            None => "quant unknown"@,
        },
        entry.uptime_30m is None ==> entry.availability() == "uptime unknown"@ + " · "@
            + match entry.quantization {
            Some(q) => q@,
            None => "quant unknown"@,
        },
{
}

/// The preview of an endpoint has six fields, each with its own value or
/// `unknown`; that of the row that pins nothing is one remark.
pub proof fn lemma_preview_tells(entry: EndpointEntry)
    ensures
        entry.tag@.len() == 0 ==> entry.preview() == seq![
            PreviewView::Note("Let OpenRouter choose the upstream each turn."@),
        ],
        entry.tag@.len() > 0 ==> {
            let lines = entry.preview();
            let or_unknown = |value: Option<String>|
                match value {
                    Some(v) => v@,
                    None => "unknown"@,
                };
            &&& lines.len() == 6
            &&& lines[0] == PreviewView::Field("Tag"@, entry.tag@)
            &&& entry.uptime_30m matches Some(u) ==> lines[1] == PreviewView::Field(
                "Uptime (30m)"@,
                u@ + "%"@,
            )
            &&& entry.uptime_30m is None ==> lines[1] == PreviewView::Field(
                "Uptime (30m)"@,
                "unknown"@,
            )
            &&& lines[2] == PreviewView::Field("Quantization"@, or_unknown(entry.quantization))
            &&& lines[3] == PreviewView::Field("Prompt price"@, or_unknown(entry.prompt_price))
            &&& lines[4] == PreviewView::Field(
                "Completion price"@,
                or_unknown(entry.completion_price),
            )
            &&& lines[5] matches PreviewView::Field(label, value) && label == "Max completion"@
                && match entry.max_completion_tokens {
                Some(n) => text::digits_value(value) == n,
                None => value == "unknown"@,
            }
        },
{
    if let Some(n) = entry.max_completion_tokens {
        text::lemma_decimal(n as nat);
    }
}

/// A drawn row reads the marker of the active endpoint, the name, and the tag
/// in brackets, whether or not characters are marked; they are only where
/// some match.
pub proof fn lemma_drawn_row(
    entry: &EndpointEntry,
    is_selected: bool,
    matches: usize,
    plain: Vec<RowSpan>,
    marked: Vec<RowSpan>,
)
    requires
        call_ensures(EndpointEntry::render_row, (entry, is_selected), plain),
        call_ensures(
            EndpointEntry::render_row_with_highlight,
            (entry, is_selected, matches),
            marked,
        ),
    ensures
        ({
            let reads = (if entry.is_active {
                "● "@
            } else {
                "  "@
            }) + entry.provider_name@ + "  "@ + (if entry.tag@.len() == 0 {
                "(auto-route)"@
            } else {
                "("@ + entry.tag@ + ")"@
            });
            &&& span_views(plain@).map_values(|s: SpanView| s.text).flatten() == reads
            &&& span_views(marked@).map_values(|s: SpanView| s.text).flatten() == reads
            &&& forall|i: int| 0 <= i < plain@.len() ==> !(#[trigger] plain@[i]).highlighted
            &&& forall|i: int|
                0 <= i < marked@.len() && (#[trigger] marked@[i]).highlighted ==> matches > 0
                    && marked@[i].text@ == entry.provider_name@
            &&& matches > 0 ==> marked@.len() > 1 && marked@[1].highlighted
            &&& forall|i: int|
                1 <= i < plain@.len() ==> (#[trigger] plain@[i]).style == if is_selected {
                    RowStyle::Selected
                } else {
                    RowStyle::Plain
                }
        }),
{
    let name = entry.provider_name@;
    lemma_row_reads(name, entry.tag@, entry.is_active, is_selected, false);
    lemma_row_reads(name, entry.tag@, entry.is_active, is_selected, matches > 0);
    let drawn = span_views(plain@);
    let lit = span_views(marked@);
    assert(drawn.len() == plain@.len() && lit.len() == marked@.len());
    assert forall|i: int| 0 <= i < plain@.len() implies !(#[trigger] plain@[i]).highlighted by {
        assert(drawn[i] == plain@[i]@);
    }
    assert forall|i: int|
        0 <= i < marked@.len() && (#[trigger] marked@[i]).highlighted implies matches > 0
        && marked@[i].text@ == name by {
        assert(lit[i] == marked@[i]@);
    }
    assert forall|i: int| 1 <= i < plain@.len() implies (#[trigger] plain@[i]).style
        == if is_selected {
        RowStyle::Selected
    } else {
        RowStyle::Plain
    } by {
        assert(drawn[i] == plain@[i]@);
    }
    if matches > 0 {
        assert(lit[1] == marked@[1]@);
    }
}

/// The row that pins nothing is told from every other by its id, and has no
/// preview to keep.
pub proof fn lemma_auto_route_row(
    is_active: bool,
    row: EndpointEntry,
    entry: &EndpointEntry,
    id: &str,
    key: Option<String>,
)
    requires
        call_ensures(EndpointEntry::auto_route, (is_active,), row),
        call_ensures(EndpointEntry::id, (entry,), id),
        call_ensures(EndpointEntry::cache_key, (entry,), key),
    ensures
        row.tag@.len() == 0,
        row.is_active == is_active,
        row.availability() == "uptime unknown"@ + " · "@ + "quant unknown"@,
        entry.tag@.len() == 0 ==> id@ == "__auto_route__"@ && key is None,
        entry.tag@.len() > 0 ==> id@ == entry.tag@ && key is Some && key.unwrap()@ == entry.tag@,
{
    reveal_strlit("");
    lemma_availability_tells(row);
}

} // verus!
