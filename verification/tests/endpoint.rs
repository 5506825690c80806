use jinn_domain::endpoint::picker_entry::{
    EndpointEntry, PreviewLine, RowStyle, AUTO_ROUTE_SENTINEL_TAG,
};
use jinn_domain::endpoint::Endpoint;

fn anthropic() -> EndpointEntry {
    EndpointEntry {
        tag: "anthropic".to_owned(),
        provider_name: "Anthropic".to_owned(),
        uptime_30m: Some(format!("{:.1}", 99.7)),
        prompt_price: None,
        completion_price: Some("0.000015".to_owned()),
        quantization: Some("fp16".to_owned()),
        max_completion_tokens: Some(64000),
        is_active: false,
    }
}

#[test]
fn auto_route_entry_has_empty_tag() {
    // Given building the auto-route sentinel.
    // When constructing the entry.
    let entry = EndpointEntry::auto_route(true);

    // Then its tag is empty (the no-pin sentinel) and name is "Default".
    assert_eq!(entry.tag, "");
    assert_eq!(entry.tag, AUTO_ROUTE_SENTINEL_TAG);
    assert_eq!(entry.provider_name, "Default");
    assert!(entry.is_active);
}

#[test]
fn availability_summary_includes_uptime_when_present() {
    // Given an endpoint with uptime reported.
    let entry = anthropic();

    // When summarizing availability.
    // Then it contains the uptime value and quantization.
    assert!(entry.availability_summary().contains("99.7%"));
    assert!(entry.availability_summary().contains("fp16"));
    assert_eq!(entry.availability_summary(), "uptime 99.7% · fp16");
}

#[test]
fn availability_summary_names_what_is_unknown() {
    let entry = EndpointEntry::auto_route(false);
    assert_eq!(
        entry.availability_summary(),
        "uptime unknown · quant unknown"
    );
}

#[test]
fn the_preview_lists_what_is_known_of_an_endpoint() {
    let lines: Vec<(&str, String)> = anthropic()
        .preview_lines()
        .into_iter()
        .map(|line| match line {
            PreviewLine::Field { label, value } => (label, value),
            PreviewLine::Note(note) => panic!("unexpected note {note}"),
        })
        .collect();
    assert_eq!(
        lines,
        vec![
            ("Tag", "anthropic".to_owned()),
            ("Uptime (30m)", "99.7%".to_owned()),
            ("Quantization", "fp16".to_owned()),
            ("Prompt price", "unknown".to_owned()),
            ("Completion price", "0.000015".to_owned()),
            ("Max completion", "64000".to_owned()),
        ]
    );
    assert_eq!(
        EndpointEntry::auto_route(false).preview_lines(),
        vec![PreviewLine::Note(
            "Let OpenRouter choose the upstream each turn."
        )]
    );
}

#[test]
fn a_row_shows_marker_name_and_tag() {
    let mut entry = anthropic();
    let text = |entry: &EndpointEntry, matches: usize| -> Vec<String> {
        entry
            .render_row_with_highlight(true, matches)
            .into_iter()
            .map(|span| span.text)
            .collect()
    };
    assert_eq!(text(&entry, 0), vec!["  ", "Anthropic  ", "(anthropic)"]);
    assert_eq!(
        text(&entry, 2),
        vec!["  ", "Anthropic", "  ", "(anthropic)"]
    );
    assert!(entry.render_row_with_highlight(true, 2)[1].highlighted);
    entry.is_active = true;
    let spans = entry.render_row(true);
    assert_eq!(spans[0].text, "● ");
    assert_eq!(spans[0].style, RowStyle::ActiveMarker);
    assert_eq!(spans[1].style, RowStyle::Selected);
    assert_eq!(entry.render_row(false)[1].style, RowStyle::Plain);
    let auto = EndpointEntry::auto_route(false);
    assert_eq!(text(&auto, 0), vec!["  ", "Default  ", "(auto-route)"]);
}

#[test]
fn the_auto_route_row_has_an_identity_of_its_own() {
    let auto = EndpointEntry::auto_route(false);
    assert_eq!(auto.id(), "__auto_route__");
    assert_eq!(auto.cache_key(), None);
    assert_eq!(auto.display_label(), "Default");
    assert_eq!(auto.parent_id(), None);
    assert_eq!(anthropic().id(), "anthropic");
    assert_eq!(anthropic().cache_key().as_deref(), Some("anthropic"));
    let pinned = Endpoint {
        tag: anthropic().tag,
        provider_name: anthropic().provider_name,
    };
    assert_eq!(pinned.tag, "anthropic");
}
