//! The commands that can be typed after `/`.

use crate::chat_input::state;
use crate::chat_input::state::AutocompleteMatch;
use crate::text;
use crate::text::{is_in_order, text_eq, to_lowercase};
use vstd::prelude::*;

verus! {

/// A command.
#[derive(Clone, Copy, Debug, PartialEq, Eq, Structural)]
pub enum SlashCommand {
    /// Compact the older part of the history.
    Compact,
    /// Compact the whole history.
    CompactAll,
    /// Start a new session.
    New,
}

/// The name of a command.
pub open spec fn command_name(command: SlashCommand) -> Seq<char> {
    match command {
        SlashCommand::Compact => "compact"@,
        SlashCommand::CompactAll => "compact-all"@,
        SlashCommand::New => "new"@,
    }
}

/// What a command does, in a few words.
pub open spec fn command_description(command: SlashCommand) -> Seq<char> {
    match command {
        SlashCommand::Compact => "Summarize older messages"@,
        SlashCommand::CompactAll => "Summarize the whole conversation"@,
        SlashCommand::New => "Start a new session"@,
    }
}

/// The command of this name.
pub open spec fn command_named(name: Seq<char>) -> Option<SlashCommand> {
    if name == command_name(SlashCommand::Compact) {
        Some(SlashCommand::Compact)
    } else if name == command_name(SlashCommand::CompactAll) {
        Some(SlashCommand::CompactAll)
    } else if name == command_name(SlashCommand::New) {
        Some(SlashCommand::New)
    } else {
        None
    }
}

/// The popup row of a command.
pub open spec fn command_row(command: SlashCommand) -> state::MatchView {
    state::MatchView {
        name: command_name(command),
        description: command_description(command),
    }
}

/// Whether a name matches a typed filter: the filter's characters occur in it
/// in order, whatever the case.
pub open spec fn fuzzy_match(filter: Seq<char>, name: Seq<char>) -> bool {
    text::lowercase(filter).len() == 0 || text::occurs_in_order(
        text::lowercase(filter),
        text::lowercase(name),
    )
}

/// The row of a command if it matches the filter.
pub open spec fn row_if_matching(filter: Seq<char>, command: SlashCommand) -> Seq<
    state::MatchView,
> {
    if fuzzy_match(filter, command_name(command)) {
        seq![command_row(command)]
    } else {
        Seq::empty()
    }
}

/// The rows of the commands that match the filter.
pub open spec fn slash_matches(filter: Seq<char>) -> Seq<state::MatchView> {
    row_if_matching(filter, SlashCommand::Compact) + row_if_matching(
        filter,
        SlashCommand::CompactAll,
    ) + row_if_matching(filter, SlashCommand::New)
}

/// Whether a name matches a typed filter.
pub fn is_fuzzy_match(filter: &str, name: &str) -> (yes: bool)
    ensures
        yes == fuzzy_match(filter@, name@),
{
    let filter_lower = to_lowercase(filter);
    if filter_lower.as_str().is_empty() {
        return true;
    }
    let name_lower = to_lowercase(name);
    is_in_order(filter_lower.as_str(), name_lower.as_str())
}

impl SlashCommand {
    /// The command's name.
    pub fn name(self) -> (name: &'static str)
        ensures
            name@ == command_name(self),
    {
        match self {
            SlashCommand::Compact => "compact",
            SlashCommand::CompactAll => "compact-all",
            SlashCommand::New => "new",
        }
    }

    /// What the command does, in a few words.
    pub fn description(self) -> (description: &'static str)
        ensures
            description@ == command_description(self),
    {
        match self {
            SlashCommand::Compact => "Summarize older messages",
            SlashCommand::CompactAll => "Summarize the whole conversation",
            SlashCommand::New => "Start a new session",
        }
    }

    /// The command of this name.
    pub fn lookup(name: &str) -> (command: Option<SlashCommand>)
        ensures
            command == command_named(name@),
    {
        if text_eq(name, "compact") {
            Some(SlashCommand::Compact)
        } else if text_eq(name, "compact-all") {
            Some(SlashCommand::CompactAll)
        } else if text_eq(name, "new") {
            Some(SlashCommand::New)
        } else {
            None
        }
    }

    /// Appends the command's row if it matches the filter.
    fn push_if_matching(self, filter: &str, rows: &mut Vec<AutocompleteMatch>)
        ensures
            state::match_views(final(rows)@) == state::match_views(old(rows)@) + row_if_matching(
                filter@,
                self,
            ),
    {
        let ghost before = rows@;
        if is_fuzzy_match(filter, self.name()) {
            rows.push(
                AutocompleteMatch {
                    name: self.name().to_owned(),
                    description: self.description().to_owned(),
                },
            );
        }
        assert(state::match_views(rows@) =~= state::match_views(before) + row_if_matching(
            filter@,
            self,
        ));
    }
}

/// The rows of the commands that match a typed filter.
pub fn compute_slash_matches(filter: &str) -> (rows: Vec<AutocompleteMatch>)
    ensures
        state::match_views(rows@) == slash_matches(filter@),
{
    let mut rows: Vec<AutocompleteMatch> = Vec::new();
    SlashCommand::Compact.push_if_matching(filter, &mut rows);
    SlashCommand::CompactAll.push_if_matching(filter, &mut rows);
    SlashCommand::New.push_if_matching(filter, &mut rows);
    assert(state::match_views(rows@) =~= slash_matches(filter@));
    rows
}

/// Whether what is typed fits a name: the name becomes it when some of its
/// characters are left out, whatever the case.
pub open spec fn fits(typed: Seq<char>, name: Seq<char>) -> bool {
    text::subsequence(text::lowercase(typed), text::lowercase(name))
}

/// A name matches a filter exactly if the filter fits it.
pub proof fn lemma_fuzzy_match_fits(filter: Seq<char>, name: Seq<char>)
    ensures
        fuzzy_match(filter, name) <==> fits(filter, name),
{
    text::lemma_in_order_is_subsequence(text::lowercase(filter), text::lowercase(name));
}

/// Every command as the popup shows it.
pub open spec fn command_list() -> Seq<state::MatchView> {
    seq![
        state::MatchView { name: "compact"@, description: "Summarize older messages"@ },
        state::MatchView { name: "compact-all"@, description: "Summarize the whole conversation"@ },
        state::MatchView { name: "new"@, description: "Start a new session"@ },
    ]
}

/// The popup shows exactly the commands that the filter fits, in their order.
pub proof fn lemma_slash_rows(filter: Seq<char>)
    ensures
        slash_matches(filter) == command_list().filter(
            |row: state::MatchView| fits(filter, row.name),
        ),
{
    reveal(Seq::filter);
    let keep = |row: state::MatchView| fits(filter, row.name);
    let all = command_list();
    let two = all.drop_last();
    let one = two.drop_last();
    let none = one.drop_last();
    assert(none =~= Seq::empty());
    lemma_fuzzy_match_fits(filter, "compact"@);
    lemma_fuzzy_match_fits(filter, "compact-all"@);
    lemma_fuzzy_match_fits(filter, "new"@);
    assert(none.filter(keep) =~= Seq::empty());
    assert(one.last() == all[0] && two.last() == all[1] && all.last() == all[2]);
    assert(one.filter(keep) =~= row_if_matching(filter, SlashCommand::Compact));
    assert(two.filter(keep) =~= row_if_matching(filter, SlashCommand::Compact) + row_if_matching(
        filter,
        SlashCommand::CompactAll,
    ));
    assert(slash_matches(filter) =~= all.filter(keep));
}

/// A command is looked up by its exact name, and no other text names one.
pub proof fn lemma_command_lookup(name: Seq<char>)
    ensures
        command_named(name) == Some(SlashCommand::Compact) <==> name == "compact"@,
        command_named(name) == Some(SlashCommand::CompactAll) <==> name == "compact-all"@,
        command_named(name) == Some(SlashCommand::New) <==> name == "new"@,
        command_named(name) is None <==> name != "compact"@ && name != "compact-all"@ && name
            != "new"@,
{
    reveal_strlit("compact");
    reveal_strlit("compact-all");
    reveal_strlit("new");
    assert("compact"@.len() == 7 && "compact-all"@.len() == 11 && "new"@.len() == 3);
}

/// A filter matches a name where its characters occur in the name in their
/// order, whatever the case.
pub proof fn lemma_matched_name(filter: &str, name: &str, yes: bool)
    requires
        call_ensures(is_fuzzy_match, (filter, name), yes),
    ensures
        yes <==> text::subsequence(text::lowercase(filter@), text::lowercase(name@)),
{
    lemma_fuzzy_match_fits(filter@, name@);
}

/// A command is found by its own name, and each name finds one command at
/// most.
pub proof fn lemma_command_is_found_by_name(
    command: SlashCommand,
    name: &'static str,
    typed: &str,
    found: Option<SlashCommand>,
)
    requires
        call_ensures(SlashCommand::name, (command,), name),
        call_ensures(SlashCommand::lookup, (typed,), found),
    ensures
        found == Some(command) <==> typed@ == name@,
{
    lemma_command_lookup(typed@);
    reveal_strlit("compact");
    reveal_strlit("compact-all");
    reveal_strlit("new");
}

/// The rows for a filter are the commands that it fits, in their order.
pub proof fn lemma_computed_commands(filter: &str, rows: Vec<AutocompleteMatch>)
    requires
        call_ensures(compute_slash_matches, (filter,), rows),
    ensures
        rows@.map_values(|row: AutocompleteMatch| row@) == command_list().filter(
            |row: state::MatchView| fits(filter@, row.name),
        ),
{
    lemma_slash_rows(filter@);
    assert(rows@.map_values(|row: AutocompleteMatch| row@) =~= state::match_views(rows@));
}

} // verus!
