//! The command interpreter: scans transcribed text for command phrases using
//! prefix gating and fuzzy matching, applies text-editing commands to the
//! owned text buffer, and queues events for the host to publish.

use vstd::prelude::*;
use crate::text::{
    lower_of, lowercase_of, contains_at, contains_seq, contains_str, starts_with_str, find_str,
    trim_spec, trim_str,
};
use crate::commands::{
    VoiceCommandType, VoiceCommand, CommandDetector, detector_matches, same_command_type,
    clone_command, clone_command_type, command_type_eq,
};
use crate::editor::{
    VoiceTextEditor, DeleteScope, FormatOperation, TextEditOperation, TextOperationHistory,
    delete_spec, format_spec, recorded_with, spec_undo, spec_redo, lemma_editor_bounds,
};

verus! {

/// Configuration for the voice command system. The sensitivity is a
/// per-mille threshold in `0..=1000`.
#[derive(Debug, Clone)]
pub struct VoiceCommandConfig {
    /// Whether voice commands are enabled.
    pub enabled: bool,
    /// The command prefix (a wake phrase spoken before commands).
    pub command_prefix: Option<String>,
    /// Whether to require the prefix for all commands.
    pub require_prefix: bool,
    /// Command detection sensitivity in per-mille (0..=1000).
    pub sensitivity: u32,
    /// Custom command mappings (trigger text to command type).
    pub custom_commands: Vec<(String, VoiceCommandType)>,
}

impl Default for VoiceCommandConfig {
    /// Commands enabled, no prefix, sensitivity 800 per-mille.
    fn default() -> (r: Self)
        ensures
            r.enabled == true,
            r.command_prefix is None,
            r.require_prefix == false,
            r.sensitivity == 800,
            r.custom_commands@.len() == 0,
    {
        VoiceCommandConfig {
            enabled: true,
            command_prefix: None,
            require_prefix: false,
            sensitivity: 800,
            custom_commands: Vec::new(),
        }
    }
}

/// Voice command event types, queued for the host to publish.
#[derive(Debug, Clone)]
pub enum VoiceCommandEvent {
    /// A command was detected.
    CommandDetected(VoiceCommand),
    /// Error processing commands.
    Error(String),
}

// ---------------------------------------------------------------------------
// Specification of the processing pipeline.
// ---------------------------------------------------------------------------

/// The position of the first occurrence of `p` in `t` (meaningful only when
/// `p` occurs in `t`).
pub open spec fn first_occurrence(t: Seq<char>, p: Seq<char>) -> int {
    choose|i: int|
        contains_at(t, p, i) && (forall|j: int| 0 <= j < i ==> !contains_at(t, p, j))
}

proof fn lemma_first_occurrence_is(t: Seq<char>, p: Seq<char>, i: int)
    requires
        contains_at(t, p, i),
        forall|j: int| 0 <= j < i ==> !contains_at(t, p, j),
    ensures
        first_occurrence(t, p) == i,
{
    let c = first_occurrence(t, p);
    assert(contains_at(t, p, c) && (forall|j: int| 0 <= j < c ==> !contains_at(t, p, j)))
        by {
        assert(contains_at(t, p, i) && (forall|j: int| 0 <= j < i ==> !contains_at(t, p, j)));
    }
    if c < i {
        assert(!contains_at(t, p, c));
    }
    if c > i {
        assert(!contains_at(t, p, i));
    }
}

/// Prefix gating: whether the prefix was found, and the command text that
/// detection should search. A leading prefix is preferred; otherwise the
/// first occurrence anywhere counts, and the text after it is the command
/// text, trimmed.
pub open spec fn gate(prefix: Option<Seq<char>>, t: Seq<char>) -> (bool, Seq<char>) {
    match prefix {
        Some(p) => {
            if contains_at(t, p, 0) {
                (true, trim_spec(t.skip(p.len() as int)))
            } else if contains_seq(t, p) {
                (true, trim_spec(t.skip(first_occurrence(t, p) + p.len())))
            } else {
                (false, t)
            }
        },
        None => (false, t),
    }
}

/// The first detector at or after position `k` that fires on `t`, if any.
pub open spec fn first_match_from(
    ds: Seq<(Seq<char>, VoiceCommandType)>,
    t: Seq<char>,
    sens: int,
    k: int,
) -> Option<int>
    decreases ds.len() - k,
{
    if k < 0 || k >= ds.len() {
        None
    } else if detector_matches(ds[k].0, t, sens) {
        Some(k)
    } else {
        first_match_from(ds, t, sens, k + 1)
    }
}

/// The first detector that fires on `t`, if any.
pub open spec fn first_match(
    ds: Seq<(Seq<char>, VoiceCommandType)>,
    t: Seq<char>,
    sens: int,
) -> Option<int> {
    first_match_from(ds, t, sens, 0)
}

proof fn lemma_first_match_from(
    ds: Seq<(Seq<char>, VoiceCommandType)>,
    t: Seq<char>,
    sens: int,
    m: int,
    k: int,
)
    requires
        0 <= m <= k <= ds.len(),
        forall|j: int| m <= j < k ==> !detector_matches(#[trigger] ds[j].0, t, sens),
        k < ds.len() ==> detector_matches(ds[k].0, t, sens),
    ensures
        first_match_from(ds, t, sens, m) == if k < ds.len() {
            Some(k)
        } else {
            None::<int>
        },
    decreases k - m,
{
    if m < k {
        lemma_first_match_from(ds, t, sens, m + 1, k);
    }
}

/// The delete scope inferred from the text that triggered a delete command.
pub open spec fn scope_of_trigger(t: Seq<char>) -> DeleteScope {
    if contains_seq(t, "word"@) {
        DeleteScope::LastWord
    } else if contains_seq(t, "sentence"@) {
        DeleteScope::LastSentence
    } else if contains_seq(t, "paragraph"@) {
        DeleteScope::LastParagraph
    } else {
        DeleteScope::LastWord
    }
}

/// The commands that processing detects in the lowered text, each with the
/// candidate text it was found in: nothing for a short text or a missing
/// required prefix; the post-prefix text alone when the prefix was found;
/// otherwise both the whole text and the command text are searched, and for
/// each the first matching detector wins.
pub open spec fn detected_views(
    ds: Seq<(Seq<char>, VoiceCommandType)>,
    prefix: Option<Seq<char>>,
    require_prefix: bool,
    sens: int,
    lowered: Seq<char>,
) -> Seq<(VoiceCommandType, Seq<char>)> {
    let t = trim_spec(lowered);
    if t.len() < 2 {
        Seq::empty()
    } else {
        let g = gate(prefix, t);
        if require_prefix && !g.0 {
            Seq::empty()
        } else if g.0 {
            match first_match(ds, g.1, sens) {
                Some(k) => seq![(ds[k].1, g.1)],
                None => Seq::empty(),
            }
        } else {
            (match first_match(ds, t, sens) {
                Some(k) => seq![(ds[k].1, t)],
                None => Seq::empty(),
            }) + (match first_match(ds, g.1, sens) {
                Some(k) => seq![(ds[k].1, g.1)],
                None => Seq::empty(),
            })
        }
    }
}

proof fn lemma_same_command_type_refl(t: VoiceCommandType)
    ensures
        same_command_type(t, t),
{
    match t {
        VoiceCommandType::Custom(x) => {
            assert(same_command_type(VoiceCommandType::Custom(x), VoiceCommandType::Custom(x)));
        },
        _ => {},
    }
}

/// True when a command of the given type appears in the registry.
pub open spec fn type_in_registry(regs: Seq<VoiceCommandType>, t: VoiceCommandType) -> bool {
    exists|j: int| 0 <= j < regs.len() && same_command_type(#[trigger] regs[j], t)
}

/// True when every detector's command type appears in the registry.
pub open spec fn registry_covers(
    regs: Seq<VoiceCommandType>,
    ds: Seq<(Seq<char>, VoiceCommandType)>,
) -> bool {
    forall|i: int| 0 <= i < ds.len() ==> type_in_registry(regs, (#[trigger] ds[i]).1)
}

/// True when `e1` is `e0` with one more event at the end.
pub open spec fn pushed_one(e1: Seq<VoiceCommandEvent>, e0: Seq<VoiceCommandEvent>) -> bool {
    e1.len() == e0.len() + 1 && e1.take(e0.len() as int) == e0
}

/// True when the event reports the detection of the given command.
pub open spec fn is_command_event(
    e: VoiceCommandEvent,
    ctype: VoiceCommandType,
    trig: Seq<char>,
) -> bool {
    match e {
        VoiceCommandEvent::CommandDetected(c) => same_command_type(c.command_type, ctype)
            && c.trigger_text@ == trig && c.parameters is None,
        VoiceCommandEvent::Error(_) => false,
    }
}

/// True when the event reports an error with the given message.
pub open spec fn is_error_event(e: VoiceCommandEvent, msg: Seq<char>) -> bool {
    match e {
        VoiceCommandEvent::CommandDetected(_) => false,
        VoiceCommandEvent::Error(s) => s@ == msg,
    }
}

/// Voice command manager: the single owner of the detectors, the text buffer
/// and its editor. Events are queued and drained by the host.
pub struct VoiceCommandManager {
    /// Configuration for the voice command system.
    config: VoiceCommandConfig,
    /// The configured prefix, lowercased once for matching.
    prefix_lowered: Option<String>,
    /// Active command detectors.
    command_detectors: Vec<CommandDetector>,
    /// The command types that are currently registered, without duplicates.
    registered_commands: Vec<VoiceCommandType>,
    /// Whether the command detector is active.
    is_active: bool,
    /// Text editor for handling text editing commands.
    text_editor: VoiceTextEditor,
    /// Current text buffer being edited.
    current_text: String,
    /// Queued events, oldest first.
    events: Vec<VoiceCommandEvent>,
}

impl VoiceCommandManager {
    /// The detectors, as pairs of lowered trigger and command type.
    pub closed spec fn detectors(&self) -> Seq<(Seq<char>, VoiceCommandType)> {
        self.command_detectors@.map_values(|d: CommandDetector| (d.trigger_view(), d.ctype()))
    }

    /// The lowered prefix, if one is configured.
    pub closed spec fn prefix_view(&self) -> Option<Seq<char>> {
        match self.prefix_lowered {
            Some(p) => Some(p@),
            None => None,
        }
    }

    /// Whether a prefix is required before commands.
    pub closed spec fn require_prefix(&self) -> bool {
        self.config.require_prefix
    }

    /// The per-mille sensitivity threshold.
    pub closed spec fn sensitivity(&self) -> u32 {
        self.config.sensitivity
    }

    /// Whether the configuration enables commands.
    pub closed spec fn enabled(&self) -> bool {
        self.config.enabled
    }

    /// Whether detection is running.
    pub closed spec fn active(&self) -> bool {
        self.is_active
    }

    /// The registered command types.
    pub closed spec fn registered(&self) -> Seq<VoiceCommandType> {
        self.registered_commands@
    }

    /// The current text buffer.
    pub closed spec fn text_view(&self) -> Seq<char> {
        self.current_text@
    }

    /// The queued events.
    pub closed spec fn events_view(&self) -> Seq<VoiceCommandEvent> {
        self.events@
    }

    /// The editor's history entries.
    pub closed spec fn editor_entries(&self) -> Seq<TextOperationHistory> {
        self.text_editor.entries()
    }

    /// The editor's history cursor.
    pub closed spec fn editor_cursor(&self) -> int {
        self.text_editor.cursor()
    }

    /// The editor's history bound.
    pub closed spec fn editor_capacity(&self) -> int {
        self.text_editor.capacity()
    }

    /// The lowered prefix mirrors the configured one, and the editor is well
    /// formed.
    pub closed spec fn wf(&self) -> bool {
        &&& self.text_editor.wf()
        &&& match (self.prefix_lowered, self.config.command_prefix) {
            (Some(pl), Some(p)) => pl@ == lower_of(p@),
            (None, None) => true,
            _ => false,
        }
    }

    /// True when configuration, detectors, registry and activity agree.
    pub closed spec fn same_setup(self, other: Self) -> bool {
        &&& self.config == other.config
        &&& self.prefix_lowered == other.prefix_lowered
        &&& self.command_detectors == other.command_detectors
        &&& self.registered_commands == other.registered_commands
        &&& self.is_active == other.is_active
    }

    /// True when the text buffer, editor history and event queue agree.
    pub closed spec fn same_state(self, other: Self) -> bool {
        &&& self.current_text@ == other.current_text@
        &&& self.text_editor.entries() == other.text_editor.entries()
        &&& self.text_editor.cursor() == other.text_editor.cursor()
        &&& self.text_editor.capacity() == other.text_editor.capacity()
        &&& self.events@ == other.events@
    }

    /// The side effects of one detected command: delete and format commands
    /// edit the buffer and record history; undo and redo move through it, or
    /// report an error when there is nothing to step to; every other command
    /// is only reported.
    pub closed spec fn applied_command(
        m1: Self,
        m0: Self,
        ctype: VoiceCommandType,
        trig: Seq<char>,
    ) -> bool {
        &&& m1.same_setup(m0)
        &&& m1.text_editor.capacity() == m0.text_editor.capacity()
        &&& match ctype {
            VoiceCommandType::Delete => {
                let scope = scope_of_trigger(trig);
                let newtext = delete_spec(m0.current_text@, scope);
                &&& m1.current_text@ == newtext
                &&& recorded_with(
                    m1.text_editor.entries(),
                    m1.text_editor.cursor(),
                    m0.text_editor.entries(),
                    m0.text_editor.cursor(),
                    m0.text_editor.capacity(),
                    TextEditOperation::Delete(scope),
                    m0.current_text@,
                    newtext,
                )
                &&& pushed_one(m1.events@, m0.events@)
                &&& is_command_event(m1.events@.last(), ctype, trig)
            },
            VoiceCommandType::Capitalize => {
                let newtext = format_spec(m0.current_text@, FormatOperation::Capitalize);
                &&& m1.current_text@ == newtext
                &&& recorded_with(
                    m1.text_editor.entries(),
                    m1.text_editor.cursor(),
                    m0.text_editor.entries(),
                    m0.text_editor.cursor(),
                    m0.text_editor.capacity(),
                    TextEditOperation::Format(FormatOperation::Capitalize),
                    m0.current_text@,
                    newtext,
                )
                &&& pushed_one(m1.events@, m0.events@)
                &&& is_command_event(m1.events@.last(), ctype, trig)
            },
            VoiceCommandType::Lowercase => {
                let newtext = format_spec(m0.current_text@, FormatOperation::Lowercase);
                &&& m1.current_text@ == newtext
                &&& recorded_with(
                    m1.text_editor.entries(),
                    m1.text_editor.cursor(),
                    m0.text_editor.entries(),
                    m0.text_editor.cursor(),
                    m0.text_editor.capacity(),
                    TextEditOperation::Format(FormatOperation::Lowercase),
                    m0.current_text@,
                    newtext,
                )
                &&& pushed_one(m1.events@, m0.events@)
                &&& is_command_event(m1.events@.last(), ctype, trig)
            },
            VoiceCommandType::Undo => {
                &&& m1.text_editor.entries() == m0.text_editor.entries()
                &&& m1.text_editor.cursor() == spec_undo(
                    m0.text_editor.entries(),
                    m0.text_editor.cursor(),
                ).1
                &&& pushed_one(m1.events@, m0.events@)
                &&& if m0.text_editor.cursor() > 0 {
                    &&& m1.current_text@ == m0.text_editor.entries()[m0.text_editor.cursor()
                        - 1].previous_text@
                    &&& is_command_event(m1.events@.last(), ctype, trig)
                } else {
                    &&& m1.current_text@ == m0.current_text@
                    &&& is_error_event(m1.events@.last(), "Nothing to undo"@)
                }
            },
            VoiceCommandType::Redo => {
                &&& m1.text_editor.entries() == m0.text_editor.entries()
                &&& m1.text_editor.cursor() == spec_redo(
                    m0.text_editor.entries(),
                    m0.text_editor.cursor(),
                ).1
                &&& pushed_one(m1.events@, m0.events@)
                &&& if m0.text_editor.cursor() < m0.text_editor.entries().len() {
                    &&& m1.current_text@ == m0.text_editor.entries()[m0.text_editor.cursor()].current_text@
                    &&& is_command_event(m1.events@.last(), ctype, trig)
                } else {
                    &&& m1.current_text@ == m0.current_text@
                    &&& is_error_event(m1.events@.last(), "Nothing to redo"@)
                }
            },
            _ => {
                &&& m1.current_text@ == m0.current_text@
                &&& m1.text_editor.entries() == m0.text_editor.entries()
                &&& m1.text_editor.cursor() == m0.text_editor.cursor()
                &&& pushed_one(m1.events@, m0.events@)
                &&& is_command_event(m1.events@.last(), ctype, trig)
            },
        }
    }

    /// The whole outcome of processing the lowered text: the returned
    /// commands are exactly the detected ones, and the side effects of each
    /// are applied in order.
    pub closed spec fn process_outcome(
        m1: Self,
        m0: Self,
        lowered: Seq<char>,
        r: Seq<VoiceCommand>,
    ) -> bool {
        let dv = detected_views(
            m0.detectors(),
            m0.prefix_view(),
            m0.require_prefix(),
            m0.sensitivity() as int,
            lowered,
        );
        &&& r.len() == dv.len()
        &&& forall|i: int|
            0 <= i < r.len() ==> (#[trigger] r[i]).command_type == dv[i].0 && r[i].trigger_text@
                == dv[i].1 && r[i].parameters is None
        &&& if dv.len() == 0 {
            m1.same_setup(m0) && m1.same_state(m0)
        } else if dv.len() == 1 {
            Self::applied_command(m1, m0, dv[0].0, dv[0].1)
        } else {
            exists|mid: Self|
                #[trigger] Self::applied_command(mid, m0, dv[0].0, dv[0].1)
                    && Self::applied_command(m1, mid, dv[1].0, dv[1].1)
        }
    }
}

} // verus!

verus! {

/// The default command detectors, as pairs of lowered trigger and command
/// type, in registration order.
pub open spec fn default_detector_views() -> Seq<(Seq<char>, VoiceCommandType)> {
    seq![
        (lower_of("delete"@), VoiceCommandType::Delete),
        (lower_of("delete that"@), VoiceCommandType::Delete),
        (lower_of("delete last word"@), VoiceCommandType::Delete),
        (lower_of("delete last sentence"@), VoiceCommandType::Delete),
        (lower_of("delete last paragraph"@), VoiceCommandType::Delete),
        (lower_of("undo"@), VoiceCommandType::Undo),
        (lower_of("undo that"@), VoiceCommandType::Undo),
        (lower_of("redo"@), VoiceCommandType::Redo),
        (lower_of("redo that"@), VoiceCommandType::Redo),
        (lower_of("capitalize"@), VoiceCommandType::Capitalize),
        (lower_of("capitalize that"@), VoiceCommandType::Capitalize),
        (lower_of("lowercase"@), VoiceCommandType::Lowercase),
        (lower_of("lowercase that"@), VoiceCommandType::Lowercase),
        (lower_of("new line"@), VoiceCommandType::NewLine),
        (lower_of("new paragraph"@), VoiceCommandType::NewParagraph),
        (lower_of("period"@), VoiceCommandType::Period),
        (lower_of("comma"@), VoiceCommandType::Comma),
        (lower_of("question mark"@), VoiceCommandType::QuestionMark),
        (lower_of("exclamation"@), VoiceCommandType::ExclamationMark),
        (lower_of("pause"@), VoiceCommandType::Pause),
        (lower_of("resume"@), VoiceCommandType::Resume),
        (lower_of("stop"@), VoiceCommandType::Stop),
    ]
}

/// The views of the custom command mappings, triggers lowered.
pub open spec fn custom_views(cc: Seq<(String, VoiceCommandType)>) -> Seq<
    (Seq<char>, VoiceCommandType),
> {
    cc.map_values(|p: (String, VoiceCommandType)| (lower_of(p.0@), p.1))
}

impl VoiceCommandManager {
    /// Creates a manager with the default detectors followed by the custom
    /// ones from the configuration; detection starts inactive.
    pub fn new(config: VoiceCommandConfig) -> (r: Self)
        ensures
            r.wf(),
            r.detectors() == default_detector_views() + custom_views(config.custom_commands@),
            r.require_prefix() == config.require_prefix,
            r.sensitivity() == config.sensitivity,
            r.enabled() == config.enabled,
            r.prefix_view() == match config.command_prefix {
                Some(p) => Some(lower_of(p@)),
                None => None::<Seq<char>>,
            },
            !r.active(),
            r.text_view().len() == 0,
            r.events_view().len() == 0,
            r.editor_entries().len() == 0,
            r.editor_cursor() == 0,
            registry_covers(r.registered(), r.detectors()),
    {
        let mut command_detectors: Vec<CommandDetector> = Vec::new();
        command_detectors.push(CommandDetector::new("delete", VoiceCommandType::Delete));
        command_detectors.push(CommandDetector::new("delete that", VoiceCommandType::Delete));
        command_detectors.push(CommandDetector::new("delete last word", VoiceCommandType::Delete));
        command_detectors.push(
            CommandDetector::new("delete last sentence", VoiceCommandType::Delete),
        );
        command_detectors.push(
            CommandDetector::new("delete last paragraph", VoiceCommandType::Delete),
        );
        command_detectors.push(CommandDetector::new("undo", VoiceCommandType::Undo));
        command_detectors.push(CommandDetector::new("undo that", VoiceCommandType::Undo));
        command_detectors.push(CommandDetector::new("redo", VoiceCommandType::Redo));
        command_detectors.push(CommandDetector::new("redo that", VoiceCommandType::Redo));
        command_detectors.push(CommandDetector::new("capitalize", VoiceCommandType::Capitalize));
        command_detectors.push(
            CommandDetector::new("capitalize that", VoiceCommandType::Capitalize),
        );
        command_detectors.push(CommandDetector::new("lowercase", VoiceCommandType::Lowercase));
        command_detectors.push(CommandDetector::new("lowercase that", VoiceCommandType::Lowercase));
        command_detectors.push(CommandDetector::new("new line", VoiceCommandType::NewLine));
        command_detectors.push(
            CommandDetector::new("new paragraph", VoiceCommandType::NewParagraph),
        );
        command_detectors.push(CommandDetector::new("period", VoiceCommandType::Period));
        command_detectors.push(CommandDetector::new("comma", VoiceCommandType::Comma));
        command_detectors.push(
            CommandDetector::new("question mark", VoiceCommandType::QuestionMark),
        );
        command_detectors.push(
            CommandDetector::new("exclamation", VoiceCommandType::ExclamationMark),
        );
        command_detectors.push(CommandDetector::new("pause", VoiceCommandType::Pause));
        command_detectors.push(CommandDetector::new("resume", VoiceCommandType::Resume));
        command_detectors.push(CommandDetector::new("stop", VoiceCommandType::Stop));
        proof {
            assert(command_detectors@.map_values(
                |d: CommandDetector| (d.trigger_view(), d.ctype()),
            ) =~= default_detector_views());
        }
        let ghost base = command_detectors@.map_values(
            |d: CommandDetector| (d.trigger_view(), d.ctype()),
        );
        let ghost cviews = custom_views(config.custom_commands@);
        let mut k: usize = 0;
        while k < config.custom_commands.len()
            invariant
                k <= config.custom_commands@.len(),
                cviews == custom_views(config.custom_commands@),
                cviews.len() == config.custom_commands@.len(),
                command_detectors@.map_values(|d: CommandDetector| (d.trigger_view(), d.ctype()))
                    =~= base + cviews.take(k as int),
                base == default_detector_views(),
            decreases config.custom_commands@.len() - k,
        {
            let ghost before = command_detectors@;
            let trigger = &config.custom_commands[k].0;
            let ctype = clone_command_type(&config.custom_commands[k].1);
            command_detectors.push(CommandDetector::new(trigger.as_str(), ctype));
            proof {
                let f = |d: CommandDetector| (d.trigger_view(), d.ctype());
                assert(cviews[k as int] == (
                    lower_of(config.custom_commands@[k as int].0@),
                    config.custom_commands@[k as int].1,
                ));
                assert(cviews.take(k + 1) =~= cviews.take(k as int).push(cviews[k as int]));
                assert(command_detectors@.map_values(f) =~= before.map_values(f).push(
                    f(command_detectors@.last()),
                ));
                assert(command_detectors@.map_values(f) =~= base + cviews.take(k + 1));
            }
            k = k + 1;
        }
        proof {
            assert(cviews.take(cviews.len() as int) =~= cviews);
        }
        let mut registered_commands: Vec<VoiceCommandType> = Vec::new();
        let mut i: usize = 0;
        while i < command_detectors.len()
            invariant
                i <= command_detectors@.len(),
                forall|x: int| #![trigger command_detectors@[x]]
                    0 <= x < i ==> exists|j: int|
                        #![trigger registered_commands@[j]]
                        0 <= j < registered_commands@.len() && same_command_type(
                            registered_commands@[j],
                            command_detectors@[x].ctype(),
                        ),
            decreases command_detectors@.len() - i,
        {
            let mut found = false;
            let mut j: usize = 0;
            while j < registered_commands.len()
                invariant
                    j <= registered_commands@.len(),
                    i < command_detectors@.len(),
                    found ==> exists|y: int|
                        #![trigger registered_commands@[y]]
                        0 <= y < registered_commands@.len() && same_command_type(
                            registered_commands@[y],
                            command_detectors@[i as int].ctype(),
                        ),
                decreases registered_commands@.len() - j,
            {
                if command_type_eq(&registered_commands[j], command_detectors[i].command_type_ref())
                {
                    proof {
                        assert(same_command_type(
                            registered_commands@[j as int],
                            command_detectors@[i as int].ctype(),
                        ));
                    }
                    found = true;
                }
                j = j + 1;
            }
            let ghost regs_before = registered_commands@;
            if !found {
                registered_commands.push(
                    clone_command_type(command_detectors[i].command_type_ref()),
                );
                proof {
                    let l = registered_commands@.len() - 1;
                    assert(same_command_type(
                        registered_commands@[l],
                        command_detectors@[i as int].ctype(),
                    ));
                }
            }
            proof {
                assert forall|x: int| #![trigger command_detectors@[x]] 0 <= x < i + 1
                    implies exists|j2: int|
                    #![trigger registered_commands@[j2]]
                    0 <= j2 < registered_commands@.len() && same_command_type(
                        registered_commands@[j2],
                        command_detectors@[x].ctype(),
                    ) by {
                    if x < i {
                        let w = choose|j3: int|
                            0 <= j3 < regs_before.len() && same_command_type(
                                #[trigger] regs_before[j3],
                                command_detectors@[x].ctype(),
                            );
                        assert(registered_commands@[w] == regs_before[w]);
                    } else {
                        if found {
                            let w = choose|y: int|
                                0 <= y < regs_before.len() && same_command_type(
                                    #[trigger] regs_before[y],
                                    command_detectors@[i as int].ctype(),
                                );
                            assert(registered_commands@[w] == regs_before[w]);
                        } else {
                            let l = registered_commands@.len() - 1;
                            assert(same_command_type(
                                registered_commands@[l],
                                command_detectors@[i as int].ctype(),
                            ));
                        }
                    }
                }
            }
            i = i + 1;
        }
        proof {
            let f = |d: CommandDetector| (d.trigger_view(), d.ctype());
            assert forall|x: int| #![trigger command_detectors@.map_values(f)[x]]
                0 <= x < command_detectors@.len()
                implies command_detectors@.map_values(f)[x].1 == command_detectors@[x].ctype()
                by {}
        }
        let ghost gds = command_detectors@;
        let ghost gregs = registered_commands@;
        let prefix_lowered = match &config.command_prefix {
            Some(p) => Some(lowercase_of(p.as_str())),
            None => None,
        };
        let result = VoiceCommandManager {
            config,
            prefix_lowered,
            command_detectors,
            registered_commands,
            is_active: false,
            text_editor: VoiceTextEditor::new(),
            current_text: String::new(),
            events: Vec::new(),
        };
        proof {
            let ds = result.detectors();
            let regs = result.registered();
            assert(result.command_detectors@ == gds);
            assert(regs == gregs);
            assert forall|x: int| 0 <= x < ds.len() implies type_in_registry(
                regs,
                (#[trigger] ds[x]).1,
            ) by {
                assert(ds[x] == (gds[x].trigger_view(), gds[x].ctype()));
                let w = choose|j3: int|
                    #![trigger gregs[j3]]
                    0 <= j3 < gregs.len() && same_command_type(gregs[j3], gds[x].ctype());
                assert(regs[w] == gregs[w]);
                assert(same_command_type(regs[w], ds[x].1));
            }
            assert(registry_covers(regs, ds));
        }
        result
    }

    /// Starts processing voice commands.
    pub fn start(&mut self) -> (r: Result<(), String>)
        requires
            old(self).wf(),
        ensures
            final(self).wf(),
            r is Ok,
            final(self).active(),
            final(self).same_state(*old(self)),
            final(self).detectors() == old(self).detectors(),
            final(self).prefix_view() == old(self).prefix_view(),
            final(self).require_prefix() == old(self).require_prefix(),
            final(self).sensitivity() == old(self).sensitivity(),
            final(self).enabled() == old(self).enabled(),
            final(self).registered() == old(self).registered(),
    {
        self.is_active = true;
        Ok(())
    }

    /// Stops processing voice commands; stopping an already-stopped manager
    /// succeeds and changes nothing else.
    pub fn stop(&mut self) -> (r: Result<(), String>)
        requires
            old(self).wf(),
        ensures
            final(self).wf(),
            r is Ok,
            !final(self).active(),
            final(self).same_state(*old(self)),
            final(self).detectors() == old(self).detectors(),
            final(self).prefix_view() == old(self).prefix_view(),
            final(self).require_prefix() == old(self).require_prefix(),
            final(self).sensitivity() == old(self).sensitivity(),
            final(self).enabled() == old(self).enabled(),
            final(self).registered() == old(self).registered(),
    {
        self.is_active = false;
        Ok(())
    }

    /// Whether a command type is registered.
    pub fn is_command_registered(&self, command_type: &VoiceCommandType) -> (r: bool)
        ensures
            r == type_in_registry(self.registered(), *command_type),
    {
        let mut j: usize = 0;
        while j < self.registered_commands.len()
            invariant
                j <= self.registered_commands@.len(),
                forall|y: int|
                    0 <= y < j ==> !same_command_type(
                        #[trigger] self.registered_commands@[y],
                        *command_type,
                    ),
            decreases self.registered_commands@.len() - j,
        {
            if command_type_eq(&self.registered_commands[j], command_type) {
                proof {
                    assert(same_command_type(self.registered()[j as int], *command_type));
                }
                return true;
            }
            j = j + 1;
        }
        false
    }

    /// Registers a custom command: a new detector is appended and its type
    /// recorded.
    pub fn register_custom_command(&mut self, trigger: &str, command_type: VoiceCommandType) -> (r:
        Result<(), String>)
        requires
            old(self).wf(),
        ensures
            final(self).wf(),
            r is Ok,
            final(self).detectors() == old(self).detectors().push(
                (lower_of(trigger@), command_type),
            ),
            final(self).registered() == old(self).registered().push(command_type),
            final(self).same_state(*old(self)),
            final(self).active() == old(self).active(),
            final(self).prefix_view() == old(self).prefix_view(),
            final(self).require_prefix() == old(self).require_prefix(),
            final(self).sensitivity() == old(self).sensitivity(),
            final(self).enabled() == old(self).enabled(),
    {
        let ctype = clone_command_type(&command_type);
        self.command_detectors.push(CommandDetector::new(trigger, command_type));
        self.registered_commands.push(ctype);
        proof {
            assert(final(self).detectors() =~= old(self).detectors().push(
                (lower_of(trigger@), ctype),
            ));
        }
        Ok(())
    }

    /// The current text being edited.
    pub fn get_current_text(&self) -> (r: String)
        ensures
            r@ == self.text_view(),
    {
        self.current_text.clone()
    }

    /// Replaces the current text.
    pub fn set_current_text(&mut self, text: &str)
        requires
            old(self).wf(),
        ensures
            final(self).wf(),
            final(self).text_view() == text@,
            final(self).same_setup(*old(self)),
            final(self).events_view() == old(self).events_view(),
            final(self).editor_entries() == old(self).editor_entries(),
            final(self).editor_cursor() == old(self).editor_cursor(),
            final(self).editor_capacity() == old(self).editor_capacity(),
    {
        self.current_text = String::from_str(text);
    }

    /// A read-only view of the text editor.
    pub fn get_text_editor(&self) -> (r: &VoiceTextEditor)
        ensures
            r.entries() == self.editor_entries(),
            r.cursor() == self.editor_cursor(),
    {
        &self.text_editor
    }

    /// Hands the queued events to the host and clears the queue.
    pub fn take_events(&mut self) -> (r: Vec<VoiceCommandEvent>)
        requires
            old(self).wf(),
        ensures
            final(self).wf(),
            r@ == old(self).events_view(),
            final(self).events_view().len() == 0,
            final(self).same_setup(*old(self)),
            final(self).text_view() == old(self).text_view(),
            final(self).editor_entries() == old(self).editor_entries(),
            final(self).editor_cursor() == old(self).editor_cursor(),
            final(self).editor_capacity() == old(self).editor_capacity(),
    {
        let mut drained: Vec<VoiceCommandEvent> = Vec::new();
        core::mem::swap(&mut drained, &mut self.events);
        drained
    }
}

} // verus!

verus! {

impl VoiceCommandManager {
    /// The first detector that fires on the candidate text, as a command.
    fn detect_first(&self, text: &str) -> (r: Option<VoiceCommand>)
        ensures
            match r {
                Some(cmd) => first_match(self.detectors(), text@, self.sensitivity() as int)
                    matches Some(k) && cmd.command_type == self.detectors()[k].1
                    && cmd.trigger_text@ == text@ && cmd.parameters is None,
                None => first_match(self.detectors(), text@, self.sensitivity() as int) is None,
            },
    {
        let ghost ds = self.detectors();
        let ghost sens = self.config.sensitivity as int;
        let n = self.command_detectors.len();
        let mut k: usize = 0;
        while k < n
            invariant
                k <= n,
                n == self.command_detectors@.len(),
                ds == self.detectors(),
                sens == self.sensitivity() as int,
                forall|j: int| 0 <= j < k ==> !detector_matches(#[trigger] ds[j].0, text@, sens),
            decreases n - k,
        {
            let d = &self.command_detectors[k];
            proof {
                assert(ds[k as int] == (d.trigger_view(), d.ctype()));
            }
            match d.detect(text, self.config.sensitivity) {
                Some(cmd) => {
                    proof {
                        lemma_first_match_from(ds, text@, sens, 0, k as int);
                    }
                    return Some(cmd);
                },
                None => {},
            }
            k = k + 1;
        }
        proof {
            lemma_first_match_from(ds, text@, sens, 0, ds.len() as int);
        }
        None
    }

    /// Applies the side effects of one detected command.
    #[verifier::rlimit(60)]
    fn apply_detected(&mut self, cmd: &VoiceCommand)
        requires
            old(self).wf(),
            cmd.parameters is None,
        ensures
            final(self).wf(),
            Self::applied_command(*final(self), *old(self), cmd.command_type, cmd.trigger_text@),
    {
        match &cmd.command_type {
            VoiceCommandType::Delete => {
                let scope = if contains_str(cmd.trigger_text.as_str(), "word") {
                    DeleteScope::LastWord
                } else if contains_str(cmd.trigger_text.as_str(), "sentence") {
                    DeleteScope::LastSentence
                } else if contains_str(cmd.trigger_text.as_str(), "paragraph") {
                    DeleteScope::LastParagraph
                } else {
                    DeleteScope::LastWord
                };
                proof {
                    assert(scope == scope_of_trigger(cmd.trigger_text@));
                }
                let cur = self.current_text.clone();
                match self.text_editor.apply_delete(cur.as_str(), scope) {
                    Ok(new_text) => {
                        self.current_text = new_text;
                        self.events.push(VoiceCommandEvent::CommandDetected(clone_command(cmd)));
                        proof {
                            lemma_same_command_type_refl(cmd.command_type);
                            assert(self.events@.take(old(self).events@.len() as int)
                                =~= old(self).events@);
                            assert(Self::applied_command(
                                *self,
                                *old(self),
                                cmd.command_type,
                                cmd.trigger_text@,
                            ));
                        }
                    },
                    Err(_) => {
                        proof {
                            assert(false);
                        }
                    },
                }
            },
            VoiceCommandType::Capitalize => {
                let cur = self.current_text.clone();
                match self.text_editor.apply_format(cur.as_str(), FormatOperation::Capitalize) {
                    Ok(new_text) => {
                        self.current_text = new_text;
                        self.events.push(VoiceCommandEvent::CommandDetected(clone_command(cmd)));
                        proof {
                            lemma_same_command_type_refl(cmd.command_type);
                            assert(self.events@.take(old(self).events@.len() as int)
                                =~= old(self).events@);
                            assert(Self::applied_command(
                                *self,
                                *old(self),
                                cmd.command_type,
                                cmd.trigger_text@,
                            ));
                        }
                    },
                    Err(_) => {
                        proof {
                            assert(false);
                        }
                    },
                }
            },
            VoiceCommandType::Lowercase => {
                let cur = self.current_text.clone();
                match self.text_editor.apply_format(cur.as_str(), FormatOperation::Lowercase) {
                    Ok(new_text) => {
                        self.current_text = new_text;
                        self.events.push(VoiceCommandEvent::CommandDetected(clone_command(cmd)));
                        proof {
                            lemma_same_command_type_refl(cmd.command_type);
                            assert(self.events@.take(old(self).events@.len() as int)
                                =~= old(self).events@);
                            assert(Self::applied_command(
                                *self,
                                *old(self),
                                cmd.command_type,
                                cmd.trigger_text@,
                            ));
                        }
                    },
                    Err(_) => {
                        proof {
                            assert(false);
                        }
                    },
                }
            },
            VoiceCommandType::Undo => {
                let ghost h = self.text_editor.entries();
                let ghost pos = self.text_editor.cursor();
                proof {
                    lemma_editor_bounds(&self.text_editor);
                }
                let undone = self.text_editor.undo();
                match undone {
                    Some(new_text) => {
                        self.current_text = new_text;
                        self.events.push(VoiceCommandEvent::CommandDetected(clone_command(cmd)));
                        proof {
                            lemma_same_command_type_refl(cmd.command_type);
                            assert(old(self).text_editor.cursor() > 0);
                            assert(self.events@.take(old(self).events@.len() as int)
                                =~= old(self).events@);
                            assert(Self::applied_command(
                                *self,
                                *old(self),
                                cmd.command_type,
                                cmd.trigger_text@,
                            ));
                        }
                    },
                    None => {
                        self.events.push(
                            VoiceCommandEvent::Error(String::from_str("Nothing to undo")),
                        );
                        proof {
                            lemma_same_command_type_refl(cmd.command_type);
                            assert(old(self).text_editor.cursor() == 0);
                            assert(self.current_text@ == old(self).current_text@);
                            assert(self.events@.take(old(self).events@.len() as int)
                                =~= old(self).events@);
                            assert(Self::applied_command(
                                *self,
                                *old(self),
                                cmd.command_type,
                                cmd.trigger_text@,
                            ));
                        }
                    },
                }
            },
            VoiceCommandType::Redo => {
                proof {
                    lemma_editor_bounds(&self.text_editor);
                }
                match self.text_editor.redo() {
                    Some(new_text) => {
                        self.current_text = new_text;
                        self.events.push(VoiceCommandEvent::CommandDetected(clone_command(cmd)));
                        proof {
                            lemma_same_command_type_refl(cmd.command_type);
                            assert(self.events@.take(old(self).events@.len() as int)
                                =~= old(self).events@);
                            assert(Self::applied_command(
                                *self,
                                *old(self),
                                cmd.command_type,
                                cmd.trigger_text@,
                            ));
                        }
                    },
                    None => {
                        self.events.push(
                            VoiceCommandEvent::Error(String::from_str("Nothing to redo")),
                        );
                        proof {
                            lemma_same_command_type_refl(cmd.command_type);
                            assert(self.current_text@ == old(self).current_text@);
                            assert(self.events@.take(old(self).events@.len() as int)
                                =~= old(self).events@);
                            assert(Self::applied_command(
                                *self,
                                *old(self),
                                cmd.command_type,
                                cmd.trigger_text@,
                            ));
                        }
                    },
                }
            },
            _ => {
                self.events.push(VoiceCommandEvent::CommandDetected(clone_command(cmd)));
                proof {
                    lemma_same_command_type_refl(cmd.command_type);
                    assert(self.events@.take(old(self).events@.len() as int) =~= old(
                        self,
                    ).events@);
                    assert(Self::applied_command(
                        *self,
                        *old(self),
                        cmd.command_type,
                        cmd.trigger_text@,
                    ));
                }
            },
        }
    }

    /// Processes an already-normalized (lowercased) text for commands: trims
    /// it, applies prefix gating, detects commands in the candidate texts,
    /// applies their side effects in order, and returns them.
    pub fn process_lowered(&mut self, lowered: &str) -> (r: Vec<VoiceCommand>)
        requires
            old(self).wf(),
        ensures
            final(self).wf(),
            Self::process_outcome(*final(self), *old(self), lowered@, r@),
    {
        let ghost m0 = *self;
        let ghost t = trim_spec(lowered@);
        let ghost dv = detected_views(
            m0.detectors(),
            m0.prefix_view(),
            m0.require_prefix(),
            m0.sensitivity() as int,
            lowered@,
        );
        let trimmed = String::from_str(trim_str(lowered));
        if trimmed.as_str().unicode_len() < 2 {
            let r = Vec::<VoiceCommand>::new();
            proof {
                assert(dv.len() == 0);
            }
            return r;
        }
        let mut has_prefix = false;
        let mut command_text = trimmed.clone();
        match &self.prefix_lowered {
            Some(p) => {
                let plen = p.as_str().unicode_len();
                let tlen = trimmed.as_str().unicode_len();
                if starts_with_str(trimmed.as_str(), p.as_str()) {
                    let after = trimmed.as_str().substring_char(plen, tlen);
                    proof {
                        assert(after@ =~= t.skip(p@.len() as int));
                    }
                    command_text = String::from_str(trim_str(after));
                    has_prefix = true;
                } else {
                    match find_str(trimmed.as_str(), p.as_str()) {
                        Some(pos) => {
                            proof {
                                lemma_first_occurrence_is(t, p@, pos as int);
                            }
                            let after = trimmed.as_str().substring_char(pos + plen, tlen);
                            proof {
                                assert(after@ =~= t.skip(first_occurrence(t, p@) + p@.len()));
                            }
                            command_text = String::from_str(trim_str(after));
                            has_prefix = true;
                        },
                        None => {},
                    }
                }
            },
            None => {},
        }
        proof {
            let g = gate(m0.prefix_view(), t);
            assert(g.0 == has_prefix && g.1 == command_text@);
        }
        if self.config.require_prefix && !has_prefix {
            let r = Vec::<VoiceCommand>::new();
            proof {
                assert(dv.len() == 0);
            }
            return r;
        }
        let mut result: Vec<VoiceCommand> = Vec::new();
        if has_prefix {
            match self.detect_first(command_text.as_str()) {
                Some(cmd) => {
                    self.apply_detected(&cmd);
                    result.push(cmd);
                    proof {
                        assert(result@.len() == dv.len());
                        assert(result@[0].command_type == dv[0].0 && result@[0].trigger_text@
                            == dv[0].1 && result@[0].parameters is None);
                    }
                },
                None => {
                    proof {
                        assert(dv.len() == 0);
                    }
                },
            }
        } else {
            match self.detect_first(trimmed.as_str()) {
                Some(cmd) => {
                    self.apply_detected(&cmd);
                    result.push(cmd);
                },
                None => {},
            }
            let ghost mid = *self;
            match self.detect_first(command_text.as_str()) {
                Some(cmd) => {
                    self.apply_detected(&cmd);
                    result.push(cmd);
                },
                None => {},
            }
            proof {
                assert(result@.len() == dv.len());
                assert forall|i: int| 0 <= i < result@.len() implies (#[trigger] result@[i]).command_type
                    == dv[i].0 && result@[i].trigger_text@ == dv[i].1 && result@[i].parameters
                    is None by {}
                if dv.len() == 2 {
                    assert(Self::applied_command(mid, m0, dv[0].0, dv[0].1));
                    assert(Self::applied_command(*self, mid, dv[1].0, dv[1].1));
                }
            }
        }
        result
    }

    /// Processes a transcription to detect commands: returns nothing when
    /// detection is inactive or disabled; otherwise the text is lowercased
    /// and processed.
    pub fn process_transcription(&mut self, text: &str) -> (r: Vec<VoiceCommand>)
        requires
            old(self).wf(),
        ensures
            final(self).wf(),
            !(old(self).active() && old(self).enabled()) ==> r@.len() == 0 && final(self).same_setup(*old(self)) && final(self).same_state(*old(self)),
            old(self).active() && old(self).enabled() ==> Self::process_outcome(
                *final(self),
                *old(self),
                lower_of(text@),
                r@,
            ),
    {
        if !self.is_active || !self.config.enabled {
            return Vec::new();
        }
        let lowered = lowercase_of(text);
        self.process_lowered(lowered.as_str())
    }
}

/// With a required prefix that does not occur anywhere in the normalized
/// input (or none configured at all), processing detects no command,
/// whatever the input and the detectors.
pub proof fn lemma_required_prefix_absent_detects_nothing(
    ds: Seq<(Seq<char>, VoiceCommandType)>,
    prefix: Option<Seq<char>>,
    sens: int,
    lowered: Seq<char>,
)
    requires
        match prefix {
            Some(p) => !contains_seq(trim_spec(lowered), p),
            None => true,
        },
    ensures
        detected_views(ds, prefix, true, sens, lowered).len() == 0,
{
    let t = trim_spec(lowered);
    match prefix {
        Some(p) => {
            if contains_at(t, p, 0) {
                assert(contains_seq(t, p));
            }
        },
        None => {},
    }
}

} // verus!

verus! {

/// With a required prefix that does not occur anywhere in the normalized
/// input (or none configured), the whole processing outcome is empty: no
/// command is returned and neither the text buffer, the editor history nor
/// the event queue changes.
pub proof fn lemma_require_prefix_blocks_processing(
    m1: VoiceCommandManager,
    m0: VoiceCommandManager,
    lowered: Seq<char>,
    r: Seq<VoiceCommand>,
)
    requires
        VoiceCommandManager::process_outcome(m1, m0, lowered, r),
        m0.require_prefix(),
        match m0.prefix_view() {
            Some(p) => !contains_seq(trim_spec(lowered), p),
            None => true,
        },
    ensures
        r.len() == 0,
        m1.same_state(m0),
        m1.same_setup(m0),
{
    lemma_required_prefix_absent_detects_nothing(
        m0.detectors(),
        m0.prefix_view(),
        m0.sensitivity() as int,
        lowered,
    );
}

} // verus!
