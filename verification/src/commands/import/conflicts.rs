//! Resolving conflicts: all at once, or one by one.

use vstd::prelude::*;

use crate::commands::import::diff::{CommandConflict, EnvConflict};
#[allow(unused_imports)]
use crate::commands::import::diff::EnvConflictView;
use crate::models::EnvKind;
#[allow(unused_imports)]
use crate::models::CommandView;
use crate::text::decimal_of;
#[allow(unused_imports)]
use crate::text::decimal;
#[allow(unused_imports)]
use crate::transfer::ExportedCommandView;
#[allow(unused_imports)]
use crate::views::{group_views, views};

verus! {

broadcast use {vstd::string::group_string_axioms, group_views};

/// Where the resolution of conflicts stands.
#[derive(Debug, Clone, Copy, PartialEq, Eq, Structural)]
pub enum Phase {
    /// The user is asked how to resolve them.
    Asking,
    /// The user is asked to confirm that all local versions stay.
    KeepingMine,
    /// The user is asked to confirm that all incoming versions win.
    UsingIncoming,
    /// The user is asked about each of them.
    OneByOne,
}

/// The resolution of conflicts, as a value.
pub struct ResolvingView {
    pub commands: nat,
    pub envs: nat,
    pub phase: Phase,
    pub picks: Seq<bool>,
}

/// The resolution of conflicts: how many there are, where it stands, and what
/// was picked for the first of them (`true` = use incoming), commands before
/// envs.
pub struct Resolving {
    commands: usize,
    envs: usize,
    phase: Phase,
    picks: Vec<bool>,
}

impl View for Resolving {
    type V = ResolvingView;

    closed spec fn view(&self) -> ResolvingView {
        ResolvingView {
            commands: self.commands as nat,
            envs: self.envs as nat,
            phase: self.phase,
            picks: self.picks@,
        }
    }
}

/// What the user did.
pub enum ResolveEvent {
    /// Left the prompt.
    Cancelled,
    /// Chose this entry of a menu.
    Chose(String),
    /// Answered a yes/no question.
    Answered(bool),
}

/// One decision per conflict (`true` = use incoming), in the order of the
/// conflict lists.
pub struct Resolutions {
    pub commands: Vec<bool>,
    pub envs: Vec<bool>,
}

/// What to do next, as a value.
pub enum ResolveActionView {
    AskHow,
    Confirm(Seq<char>),
    ShowCommand(int),
    ShowEnv(int),
    Finish(Option<(Seq<bool>, Seq<bool>)>),
}

/// What to do next.
pub enum ResolveAction {
    /// Ask how to resolve the conflicts.
    AskHow,
    /// Ask this yes/no question.
    Confirm(String),
    /// Show this command conflict and ask which version to keep.
    ShowCommand(usize),
    /// Show this env conflict and ask which version to keep.
    ShowEnv(usize),
    /// All conflicts are resolved, or the user has given up.
    Finish(Option<Resolutions>),
}

impl View for ResolveAction {
    type V = ResolveActionView;

    open spec fn view(&self) -> ResolveActionView {
        match self {
            ResolveAction::AskHow => ResolveActionView::AskHow,
            ResolveAction::Confirm(message) => ResolveActionView::Confirm(message@),
            ResolveAction::ShowCommand(i) => ResolveActionView::ShowCommand(*i as int),
            ResolveAction::ShowEnv(i) => ResolveActionView::ShowEnv(*i as int),
            ResolveAction::Finish(None) => ResolveActionView::Finish(None),
            ResolveAction::Finish(Some(r)) => ResolveActionView::Finish(
                Some((r.commands@, r.envs@)),
            ),
        }
    }
}

/// The menu for all conflicts.
pub fn resolve_menu() -> (r: (&'static str, Vec<&'static str>))
    ensures
        r.0@ == "How do you want to resolve conflicts?"@,
        r.1@.len() == 3,
        r.1@[0]@ == "Resolve one by one"@,
        r.1@[1]@ == "Keep mine for all"@,
        r.1@[2]@ == "Use incoming for all"@,
{
    let mut options: Vec<&'static str> = Vec::new();
    options.push("Resolve one by one");
    options.push("Keep mine for all");
    options.push("Use incoming for all");
    ("How do you want to resolve conflicts?", options)
}

/// The menu for one conflict.
pub fn version_menu() -> (r: (&'static str, Vec<&'static str>))
    ensures
        r.0@ == "Which version do you want to keep?"@,
        r.1@.len() == 2,
        r.1@[0]@ == "Keep mine"@,
        r.1@[1]@ == "Use incoming"@,
{
    let mut options: Vec<&'static str> = Vec::new();
    options.push("Keep mine");
    options.push("Use incoming");
    ("Which version do you want to keep?", options)
}

/// The same decision `n` times.
pub open spec fn all_picks(pick: bool, n: nat) -> Seq<bool> {
    Seq::new(n, |i: int| pick)
}

/// The question before all local versions stay.
pub open spec fn keep_mine_question(total: nat) -> Seq<char> {
    "Keep your local version for all "@ + decimal(total)
        + " conflict(s)? Incoming changes will be discarded."@
}

/// The question before all incoming versions win.
pub open spec fn use_incoming_question(total: nat) -> Seq<char> {
    "Overwrite all "@ + decimal(total)
        + " conflict(s) with the incoming version from the file?"@
}

/// What to do once some conflicts have been decided one by one: show the next,
/// or finish after the last.
pub open spec fn next_conflict(s: ResolvingView) -> ResolveActionView {
    if s.picks.len() < s.commands {
        ResolveActionView::ShowCommand(s.picks.len() as int)
    } else if s.picks.len() < s.commands + s.envs {
        ResolveActionView::ShowEnv(s.picks.len() - s.commands)
    } else {
        ResolveActionView::Finish(
            Some(
                (
                    s.picks.subrange(0, s.commands as int),
                    s.picks.subrange(s.commands as int, s.picks.len() as int),
                ),
            ),
        )
    }
}

/// What follows from what the user did. Leaving a prompt, and answering no,
/// gives up.
pub open spec fn resolve_next(s: ResolvingView, event: ResolveEvent) -> (
    ResolvingView,
    ResolveActionView,
) {
    let give_up = ResolveActionView::Finish(None);
    match (s.phase, event) {
        (Phase::Asking, ResolveEvent::Chose(choice)) => if choice@ == "Keep mine for all"@ {
            (
                ResolvingView { phase: Phase::KeepingMine, ..s },
                ResolveActionView::Confirm(keep_mine_question(s.commands + s.envs)),
            )
        } else if choice@ == "Use incoming for all"@ {
            (
                ResolvingView { phase: Phase::UsingIncoming, ..s },
                ResolveActionView::Confirm(use_incoming_question(s.commands + s.envs)),
            )
        } else {
            let next = ResolvingView { phase: Phase::OneByOne, ..s };
            (next, next_conflict(next))
        },
        (Phase::KeepingMine, ResolveEvent::Answered(true)) => (
            s,
            ResolveActionView::Finish(
                Some((all_picks(false, s.commands), all_picks(false, s.envs))),
            ),
        ),
        (Phase::UsingIncoming, ResolveEvent::Answered(true)) => (
            s,
            ResolveActionView::Finish(
                Some((all_picks(true, s.commands), all_picks(true, s.envs))),
            ),
        ),
        (Phase::OneByOne, ResolveEvent::Chose(pick)) => {
            let next = ResolvingView { picks: s.picks.push(pick@ == "Use incoming"@), ..s };
            (next, next_conflict(next))
        },
        _ => (s, give_up),
    }
}

/// There are no more decisions than conflicts, and there is something left to
/// decide.
pub open spec fn is_resolving(s: ResolvingView) -> bool {
    &&& s.commands + s.envs <= usize::MAX
    &&& s.picks.len() < s.commands + s.envs
    &&& s.phase != Phase::OneByOne ==> s.picks.len() == 0
}

fn picks_of(pick: bool, n: usize) -> (r: Vec<bool>)
    ensures
        r@ == all_picks(pick, n as nat),
{
    let mut out: Vec<bool> = Vec::new();
    let mut i: usize = 0;
    while i < n
        invariant
            i <= n,
            out@ == all_picks(pick, i as nat),
        decreases n - i,
    {
        out.push(pick);
        i += 1;
        assert(out@ =~= all_picks(pick, i as nat));
    }
    out
}

/// A copy of some decisions.
fn copy_picks(picks: &Vec<bool>, from: usize, to: usize) -> (r: Vec<bool>)
    requires
        from <= to <= picks@.len(),
    ensures
        r@ == picks@.subrange(from as int, to as int),
{
    let mut out: Vec<bool> = Vec::new();
    let mut i: usize = from;
    while i < to
        invariant
            from <= i <= to <= picks@.len(),
            out@ == picks@.subrange(from as int, i as int),
        decreases to - i,
    {
        out.push(picks[i]);
        assert(picks@.subrange(from as int, i + 1) =~= picks@.subrange(from as int, i as int).push(
            picks@[i as int],
        ));
        i += 1;
    }
    out
}

/// Begins to resolve conflicts. Without any there is nothing to ask.
pub fn resolve_conflicts(commands: usize, envs: usize) -> (r: (Resolving, ResolveAction))
    requires
        commands + envs <= usize::MAX,
    ensures
        r.0@ == (ResolvingView {
            commands: commands as nat,
            envs: envs as nat,
            phase: Phase::Asking,
            picks: Seq::empty(),
        }),
        commands + envs == 0 ==> r.1@ == ResolveActionView::Finish(
            Some((Seq::<bool>::empty(), Seq::<bool>::empty())),
        ),
        commands + envs > 0 ==> r.1@ == ResolveActionView::AskHow && is_resolving(r.0@),
{
    let state = Resolving { commands, envs, phase: Phase::Asking, picks: Vec::new() };
    if commands + envs == 0 {
        (
            state,
            ResolveAction::Finish(Some(Resolutions { commands: Vec::new(), envs: Vec::new() })),
        )
    } else {
        (state, ResolveAction::AskHow)
    }
}

impl Resolving {
    /// Shows the next conflict, or finishes after the last.
    pub fn resolve_one_by_one(&self) -> (r: ResolveAction)
        requires
            self@.picks.len() <= self@.commands + self@.envs <= usize::MAX,
        ensures
            r@ == next_conflict(self@),
    {
        let done: usize = self.picks.len();
        if done < self.commands {
            ResolveAction::ShowCommand(done)
        } else if done - self.commands < self.envs {
            ResolveAction::ShowEnv(done - self.commands)
        } else {
            ResolveAction::Finish(
                Some(
                    Resolutions {
                        commands: copy_picks(&self.picks, 0, self.commands),
                        envs: copy_picks(&self.picks, self.commands, done),
                    },
                ),
            )
        }
    }

    /// Takes the resolution of conflicts one step further, until it finishes.
    pub fn step(&mut self, event: ResolveEvent) -> (r: ResolveAction)
        requires
            is_resolving(old(self)@),
        ensures
            (final(self)@, r@) == resolve_next(old(self)@, event),
    {
        match self.phase {
            Phase::Asking => {
                match event {
                    ResolveEvent::Chose(choice) => {
                        let total: usize = self.commands + self.envs;
                        if *choice.as_str() == *"Keep mine for all" {
                            self.phase = Phase::KeepingMine;
                            let mut message = "Keep your local version for all ".to_string();
                            message.append(&decimal_of(total as u64));
                            message.append(" conflict(s)? Incoming changes will be discarded.");
                            ResolveAction::Confirm(message)
                        } else if *choice.as_str() == *"Use incoming for all" {
                            self.phase = Phase::UsingIncoming;
                            let mut message = "Overwrite all ".to_string();
                            message.append(&decimal_of(total as u64));
                            message.append(
                                " conflict(s) with the incoming version from the file?",
                            );
                            ResolveAction::Confirm(message)
                        } else {
                            self.phase = Phase::OneByOne;
                            self.resolve_one_by_one()
                        }
                    },
                    _ => ResolveAction::Finish(None),
                }
            },
            Phase::KeepingMine => {
                match event {
                    ResolveEvent::Answered(true) => ResolveAction::Finish(
                        Some(
                            Resolutions {
                                commands: picks_of(false, self.commands),
                                envs: picks_of(false, self.envs),
                            },
                        ),
                    ),
                    _ => ResolveAction::Finish(None),
                }
            },
            Phase::UsingIncoming => {
                match event {
                    ResolveEvent::Answered(true) => ResolveAction::Finish(
                        Some(
                            Resolutions {
                                commands: picks_of(true, self.commands),
                                envs: picks_of(true, self.envs),
                            },
                        ),
                    ),
                    _ => ResolveAction::Finish(None),
                }
            },
            Phase::OneByOne => {
                match event {
                    ResolveEvent::Chose(pick) => {
                        self.picks.push(*pick.as_str() == *"Use incoming");
                        self.resolve_one_by_one()
                    },
                    _ => ResolveAction::Finish(None),
                }
            },
        }
    }
}

/// Until it finishes, the resolution of conflicts can go on. When it finishes
/// with decisions, there is exactly one for each conflict, and when the user
/// leaves a prompt or answers no, it finishes without any.
pub proof fn resolution_decides_every_conflict_or_none(s: ResolvingView, event: ResolveEvent)
    requires
        is_resolving(s),
    ensures
        ({
            let (next, action) = resolve_next(s, event);
            &&& next.commands == s.commands && next.envs == s.envs
            &&& !(action is Finish) ==> is_resolving(next)
            &&& action matches ResolveActionView::Finish(Some((commands, envs)))
                ==> commands.len() == s.commands && envs.len() == s.envs
            &&& event is Cancelled || event == ResolveEvent::Answered(false) ==> action
                == ResolveActionView::Finish(None)
        }),
{
}

/// The lines that show a command conflict.
pub open spec fn command_conflict_text(c: (CommandView, ExportedCommandView)) -> Seq<Seq<char>> {
    seq![
        "Command conflict:"@,
        "  Mine:     "@ + c.0.template + "  ("@ + c.0.description + ")"@,
        "  Incoming: "@ + c.1.template + "  ("@ + c.1.description + ")"@,
    ]
}

/// The lines that show a command conflict.
pub fn command_conflict_lines(conflict: &CommandConflict) -> (r: Vec<String>)
    ensures
        views(r@) == command_conflict_text(conflict@),
{
    let mut mine = "  Mine:     ".to_string();
    mine.append(&conflict.local.template);
    mine.append("  (");
    mine.append(&conflict.local.description);
    mine.append(")");
    let mut incoming = "  Incoming: ".to_string();
    incoming.append(&conflict.incoming.template);
    incoming.append("  (");
    incoming.append(&conflict.incoming.description);
    incoming.append(")");
    let mut out: Vec<String> = Vec::new();
    out.push("Command conflict:".to_string());
    out.push(mine);
    out.push(incoming);
    assert(views(out@) =~= command_conflict_text(conflict@));
    out
}

/// Whether either side of an env conflict is a secret.
pub open spec fn involves_secret(c: EnvConflictView) -> bool {
    c.local.kind == EnvKind::Secret || c.incoming.kind == "secret"@
}

/// The lines that show an env conflict. They show no value if either side is a
/// secret.
pub open spec fn env_conflict_text(c: EnvConflictView) -> Seq<Seq<char>> {
    if involves_secret(c) {
        seq![
            "Env conflict: '"@ + c.local.name + "'"@,
            "  Mine:     kind="@ + c.local.kind.text() + " description=\""@ + c.local.description
                + "\" value=(hidden)"@,
            "  Incoming: kind="@ + c.incoming.kind + " description=\""@ + c.incoming.description
                + "\" value=(hidden) -- values differ"@,
        ]
    } else {
        seq![
            "Env conflict: '"@ + c.local.name + "'"@,
            "  Mine:     kind="@ + c.local.kind.text() + " value=\""@ + c.local_value
                + "\" description=\""@ + c.local.description + "\""@,
            "  Incoming: kind="@ + c.incoming.kind + " value=\""@ + c.incoming.value
                + "\" description=\""@ + c.incoming.description + "\""@,
        ]
    }
}

/// Shows an env conflict.
pub fn env_conflict_lines(conflict: &EnvConflict) -> (r: Vec<String>)
    ensures
        views(r@) == env_conflict_text(conflict@),
{
    let mut heading = "Env conflict: '".to_string();
    heading.append(&conflict.local.name);
    heading.append("'");
    let mut mine = "  Mine:     kind=".to_string();
    mine.append(conflict.local.kind.as_str());
    let mut incoming = "  Incoming: kind=".to_string();
    incoming.append(&conflict.incoming.kind);
    let is_secret = conflict.local.kind == EnvKind::Secret || *conflict.incoming.kind.as_str()
        == *"secret";
    if is_secret {
        mine.append(" description=\"");
        mine.append(&conflict.local.description);
        mine.append("\" value=(hidden)");
        incoming.append(" description=\"");
        incoming.append(&conflict.incoming.description);
        incoming.append("\" value=(hidden) -- values differ");
    } else {
        mine.append(" value=\"");
        mine.append(&conflict.local_value);
        mine.append("\" description=\"");
        mine.append(&conflict.local.description);
        mine.append("\"");
        incoming.append(" value=\"");
        incoming.append(&conflict.incoming.value);
        incoming.append("\" description=\"");
        incoming.append(&conflict.incoming.description);
        incoming.append("\"");
    }
    let mut out: Vec<String> = Vec::new();
    out.push(heading);
    out.push(mine);
    out.push(incoming);
    assert(views(out@) =~= seq![heading@, mine@, incoming@]);
    assert(views(out@) =~= env_conflict_text(conflict@));
    out
}

/// What is shown before an action is asked about: the conflict, if there is one
/// to decide, or the question.
pub open spec fn shown_text(
    action: ResolveActionView,
    commands: Seq<(CommandView, ExportedCommandView)>,
    envs: Seq<EnvConflictView>,
) -> Seq<Seq<char>> {
    match action {
        ResolveActionView::ShowCommand(i) => command_conflict_text(commands[i]),
        ResolveActionView::ShowEnv(i) => env_conflict_text(envs[i]),
        ResolveActionView::Confirm(message) => seq![message],
        _ => Seq::empty(),
    }
}

/// Shows what an action is about.
pub fn shown_lines(
    action: &ResolveAction,
    commands: &[CommandConflict],
    envs: &[EnvConflict],
) -> (r: Vec<String>)
    requires
        action matches ResolveAction::ShowCommand(i) ==> i < commands@.len(),
        action matches ResolveAction::ShowEnv(i) ==> i < envs@.len(),
    ensures
        views(r@) == shown_text(action@, views(commands@), views(envs@)),
{
    match action {
        ResolveAction::ShowCommand(i) => command_conflict_lines(&commands[*i]),
        ResolveAction::ShowEnv(i) => env_conflict_lines(&envs[*i]),
        ResolveAction::Confirm(message) => {
            let mut out: Vec<String> = Vec::new();
            out.push(message.clone());
            assert(views(out@) =~= seq![message@]);
            out
        },
        _ => {
            let out: Vec<String> = Vec::new();
            assert(views(out@) =~= Seq::<Seq<char>>::empty());
            out
        },
    }
}

/// Everything that is shown while conflicts are resolved, one text per step,
/// until there is a result or nothing more happens.
pub open spec fn transcript(
    s: ResolvingView,
    action: ResolveActionView,
    events: Seq<ResolveEvent>,
    commands: Seq<(CommandView, ExportedCommandView)>,
    envs: Seq<EnvConflictView>,
) -> Seq<Seq<Seq<char>>>
    decreases events.len(),
{
    let shown = seq![shown_text(action, commands, envs)];
    if action is Finish || events.len() == 0 {
        shown
    } else {
        let (next, next_action) = resolve_next(s, events[0]);
        shown + transcript(next, next_action, events.skip(1), commands, envs)
    }
}

/// Two conflicts are the same, or both involve a secret and differ at most in
/// what is not to be seen of it: the values, the ids and the times.
pub open spec fn differ_in_secrets_only(a: EnvConflictView, b: EnvConflictView) -> bool {
    ||| a == b
    ||| {
        &&& involves_secret(a)
        &&& a.local.name == b.local.name
        &&& a.local.kind == b.local.kind
        &&& a.local.description == b.local.description
        &&& a.incoming.kind == b.incoming.kind
        &&& a.incoming.description == b.incoming.description
    }
}

/// A conflict that involves a secret is shown without either value.
pub proof fn conflicts_hide_secrets(a: EnvConflictView, b: EnvConflictView)
    requires
        differ_in_secrets_only(a, b),
    ensures
        env_conflict_text(a) == env_conflict_text(b),
{
}

/// Nothing that is shown while conflicts are resolved, from the first question
/// to the result, tells anything of a secret's value. Nor does the result,
/// which follows from what the user does alone.
pub proof fn resolution_hides_secrets(
    s: ResolvingView,
    action: ResolveActionView,
    events: Seq<ResolveEvent>,
    commands: Seq<(CommandView, ExportedCommandView)>,
    a: Seq<EnvConflictView>,
    b: Seq<EnvConflictView>,
)
    requires
        is_resolving(s),
        s.envs == a.len(),
        a.len() == b.len(),
        forall|i: int| 0 <= i < a.len() ==> differ_in_secrets_only(#[trigger] a[i], b[i]),
        action matches ResolveActionView::ShowEnv(i) ==> 0 <= i < a.len(),
    ensures
        transcript(s, action, events, commands, a) == transcript(s, action, events, commands, b),
    decreases events.len(),
{
    if let ResolveActionView::ShowEnv(i) = action {
        assert(differ_in_secrets_only(a[i], b[i]));
        conflicts_hide_secrets(a[i], b[i]);
    }
    if !(action is Finish) && events.len() > 0 {
        let (next, next_action) = resolve_next(s, events[0]);
        resolution_decides_every_conflict_or_none(s, events[0]);
        if !(next_action is Finish) {
            resolution_hides_secrets(next, next_action, events.skip(1), commands, a, b);
        }
        let rest = events.skip(1);
        assert(transcript(next, next_action, rest, commands, a) == transcript(
            next,
            next_action,
            rest,
            commands,
            b,
        ));
    }
}

} // verus!
