//! Voice command types and the detector that recognises a trigger phrase in
//! transcribed text, by exact substring match or by fuzzy word matching.
//!
//! Similarity is measured in per-mille: 1000 means identical. A spoken
//! sensitivity threshold is a per-mille value in `0..=1000`.

use vstd::prelude::*;
use crate::text::{
    lower_of, lowercase_of, contains_seq, contains_str, split_words, str_views, word_seq, str_eq,
};

verus! {

/// Types of voice commands.
#[derive(Debug, Clone, PartialEq, Eq, Hash)]
pub enum VoiceCommandType {
    /// Delete text.
    Delete,
    /// Undo the last text operation.
    Undo,
    /// Redo the last undone text operation.
    Redo,
    /// Capitalize the last word.
    Capitalize,
    /// Lowercase the last word.
    Lowercase,
    /// Insert a line break.
    NewLine,
    /// Insert a paragraph break.
    NewParagraph,
    /// Insert a period.
    Period,
    /// Insert a comma.
    Comma,
    /// Insert a question mark.
    QuestionMark,
    /// Insert an exclamation mark.
    ExclamationMark,
    /// Pause dictation.
    Pause,
    /// Resume dictation.
    Resume,
    /// Stop dictation.
    Stop,
    /// A custom command, by name.
    Custom(String),
}

/// True when the two command types are the same command; custom commands are
/// compared by the characters of their names.
pub open spec fn same_command_type(a: VoiceCommandType, b: VoiceCommandType) -> bool {
    match (a, b) {
        (VoiceCommandType::Delete, VoiceCommandType::Delete) => true,
        (VoiceCommandType::Undo, VoiceCommandType::Undo) => true,
        (VoiceCommandType::Redo, VoiceCommandType::Redo) => true,
        (VoiceCommandType::Capitalize, VoiceCommandType::Capitalize) => true,
        (VoiceCommandType::Lowercase, VoiceCommandType::Lowercase) => true,
        (VoiceCommandType::NewLine, VoiceCommandType::NewLine) => true,
        (VoiceCommandType::NewParagraph, VoiceCommandType::NewParagraph) => true,
        (VoiceCommandType::Period, VoiceCommandType::Period) => true,
        (VoiceCommandType::Comma, VoiceCommandType::Comma) => true,
        (VoiceCommandType::QuestionMark, VoiceCommandType::QuestionMark) => true,
        (VoiceCommandType::ExclamationMark, VoiceCommandType::ExclamationMark) => true,
        (VoiceCommandType::Pause, VoiceCommandType::Pause) => true,
        (VoiceCommandType::Resume, VoiceCommandType::Resume) => true,
        (VoiceCommandType::Stop, VoiceCommandType::Stop) => true,
        (VoiceCommandType::Custom(x), VoiceCommandType::Custom(y)) => x@ == y@,
        _ => false,
    }
}

/// Compares two command types.
pub fn command_type_eq(a: &VoiceCommandType, b: &VoiceCommandType) -> (r: bool)
    ensures
        r == same_command_type(*a, *b),
{
    match (a, b) {
        (VoiceCommandType::Delete, VoiceCommandType::Delete) => true,
        (VoiceCommandType::Undo, VoiceCommandType::Undo) => true,
        (VoiceCommandType::Redo, VoiceCommandType::Redo) => true,
        (VoiceCommandType::Capitalize, VoiceCommandType::Capitalize) => true,
        (VoiceCommandType::Lowercase, VoiceCommandType::Lowercase) => true,
        (VoiceCommandType::NewLine, VoiceCommandType::NewLine) => true,
        (VoiceCommandType::NewParagraph, VoiceCommandType::NewParagraph) => true,
        (VoiceCommandType::Period, VoiceCommandType::Period) => true,
        (VoiceCommandType::Comma, VoiceCommandType::Comma) => true,
        (VoiceCommandType::QuestionMark, VoiceCommandType::QuestionMark) => true,
        (VoiceCommandType::ExclamationMark, VoiceCommandType::ExclamationMark) => true,
        (VoiceCommandType::Pause, VoiceCommandType::Pause) => true,
        (VoiceCommandType::Resume, VoiceCommandType::Resume) => true,
        (VoiceCommandType::Stop, VoiceCommandType::Stop) => true,
        (VoiceCommandType::Custom(x), VoiceCommandType::Custom(y)) => str_eq(x.as_str(), y.as_str()),
        _ => false,
    }
}

/// Copies a command type; the copy is equal to the original.
pub fn clone_command_type(v: &VoiceCommandType) -> (r: VoiceCommandType)
    ensures
        r == *v,
{
    match v {
        VoiceCommandType::Delete => VoiceCommandType::Delete,
        VoiceCommandType::Undo => VoiceCommandType::Undo,
        VoiceCommandType::Redo => VoiceCommandType::Redo,
        VoiceCommandType::Capitalize => VoiceCommandType::Capitalize,
        VoiceCommandType::Lowercase => VoiceCommandType::Lowercase,
        VoiceCommandType::NewLine => VoiceCommandType::NewLine,
        VoiceCommandType::NewParagraph => VoiceCommandType::NewParagraph,
        VoiceCommandType::Period => VoiceCommandType::Period,
        VoiceCommandType::Comma => VoiceCommandType::Comma,
        VoiceCommandType::QuestionMark => VoiceCommandType::QuestionMark,
        VoiceCommandType::ExclamationMark => VoiceCommandType::ExclamationMark,
        VoiceCommandType::Pause => VoiceCommandType::Pause,
        VoiceCommandType::Resume => VoiceCommandType::Resume,
        VoiceCommandType::Stop => VoiceCommandType::Stop,
        VoiceCommandType::Custom(s) => VoiceCommandType::Custom(s.clone()),
    }
}

/// A detected voice command.
#[derive(Debug, Clone)]
pub struct VoiceCommand {
    /// Type of command.
    pub command_type: VoiceCommandType,
    /// The original text that triggered the command.
    pub trigger_text: String,
    /// Any additional parameters.
    pub parameters: Option<String>,
}

impl VoiceCommand {
    /// Creates a new voice command without parameters.
    pub fn new(command_type: VoiceCommandType, trigger_text: &str) -> (r: Self)
        ensures
            r.command_type == command_type,
            r.trigger_text@ == trigger_text@,
            r.parameters is None,
    {
        VoiceCommand {
            command_type,
            trigger_text: String::from_str(trigger_text),
            parameters: None,
        }
    }

    /// Adds parameters to the command.
    pub fn with_parameters(self, parameters: &str) -> (r: Self)
        ensures
            r.command_type == self.command_type,
            r.trigger_text == self.trigger_text,
            r.parameters matches Some(p) && p@ == parameters@,
    {
        VoiceCommand {
            command_type: self.command_type,
            trigger_text: self.trigger_text,
            parameters: Some(String::from_str(parameters)),
        }
    }
}

/// Copies a voice command; the copy is equal to the original.
pub fn clone_command(cmd: &VoiceCommand) -> (r: VoiceCommand)
    ensures
        r == *cmd,
{
    VoiceCommand {
        command_type: clone_command_type(&cmd.command_type),
        trigger_text: cmd.trigger_text.clone(),
        parameters: match &cmd.parameters {
            Some(p) => Some(p.clone()),
            None => None,
        },
    }
}

// ---------------------------------------------------------------------------
// Word similarity in per-mille.
// ---------------------------------------------------------------------------

/// The number of positions below `i` where the two words hold the same
/// character.
pub open spec fn match_count_upto(a: Seq<char>, b: Seq<char>, i: int) -> int
    decreases i,
{
    if i <= 0 {
        0
    } else {
        match_count_upto(a, b, i - 1) + (if a[i - 1] == b[i - 1] {
            1int
        } else {
            0int
        })
    }
}

/// The number of positions where the two words hold the same character,
/// over their common length.
pub open spec fn match_count(a: Seq<char>, b: Seq<char>) -> int {
    match_count_upto(a, b, if a.len() <= b.len() {
        a.len() as int
    } else {
        b.len() as int
    })
}

/// The difference of the two word lengths.
pub open spec fn len_diff(a: Seq<char>, b: Seq<char>) -> int {
    if a.len() >= b.len() {
        a.len() - b.len()
    } else {
        b.len() - a.len()
    }
}

/// The longer of the two word lengths.
pub open spec fn max_len(a: Seq<char>, b: Seq<char>) -> int {
    if a.len() >= b.len() {
        a.len() as int
    } else {
        b.len() as int
    }
}

/// Position-wise character match ratio of two words, in per-mille: 1000 for
/// equal words, 0 when the lengths differ by more than half the longer
/// length, else the matching positions over the longer length.
pub open spec fn similarity_permille(a: Seq<char>, b: Seq<char>) -> int {
    if a == b {
        1000
    } else if 2 * len_diff(a, b) > max_len(a, b) {
        0
    } else {
        match_count(a, b) * 1000 / max_len(a, b)
    }
}

proof fn lemma_match_count_bound(a: Seq<char>, b: Seq<char>, i: int)
    ensures
        0 <= match_count_upto(a, b, i) <= (if i >= 0 {
            i
        } else {
            0int
        }),
    decreases i,
{
    if i > 0 {
        lemma_match_count_bound(a, b, i - 1);
    }
}

/// Word similarity is total for a word and itself, and zero for words whose
/// lengths differ by more than half the longer length.
pub proof fn lemma_similarity(a: Seq<char>, b: Seq<char>)
    ensures
        similarity_permille(a, a) == 1000,
        2 * len_diff(a, b) > max_len(a, b) ==> similarity_permille(a, b) == 0,
        0 <= similarity_permille(a, b) <= 1000,
{
    if a != b && !(2 * len_diff(a, b) > max_len(a, b)) {
        let m = max_len(a, b);
        assert(m >= 1) by {
            if m == 0 {
                assert(a =~= b);
            }
        }
        lemma_match_count_bound(a, b, if a.len() <= b.len() {
            a.len() as int
        } else {
            b.len() as int
        });
        let c = match_count(a, b);
        assert(0 <= c <= m);
        assert(c * 1000 <= m * 1000) by (nonlinear_arith)
            requires
                0 <= c <= m,
        ;
        assert(0 <= c * 1000 / m <= 1000) by (nonlinear_arith)
            requires
                0 <= c * 1000 <= m * 1000,
                m >= 1,
        ;
    }
}

/// Computes the per-mille similarity of two words.
pub fn word_similarity(a: &str, b: &str) -> (r: u32)
    ensures
        r as int == similarity_permille(a@, b@),
        r <= 1000,
{
    proof {
        lemma_similarity(a@, b@);
    }
    if str_eq(a, b) {
        return 1000;
    }
    let an = a.unicode_len();
    let bn = b.unicode_len();
    let maxlen = if an >= bn {
        an
    } else {
        bn
    };
    let diff = if an >= bn {
        an - bn
    } else {
        bn - an
    };
    if diff > maxlen / 2 {
        assert(2 * len_diff(a@, b@) > max_len(a@, b@));
        return 0;
    }
    assert(!(2 * len_diff(a@, b@) > max_len(a@, b@)));
    let minlen = if an <= bn {
        an
    } else {
        bn
    };
    let mut count: usize = 0;
    let mut i: usize = 0;
    while i < minlen
        invariant
            i <= minlen,
            minlen == (if a@.len() <= b@.len() {
                a@.len()
            } else {
                b@.len()
            }),
            minlen <= a@.len() && minlen <= b@.len(),
            count == match_count_upto(a@, b@, i as int),
            count <= i,
        decreases minlen - i,
    {
        if a.get_char(i) == b.get_char(i) {
            count = count + 1;
        }
        i = i + 1;
    }
    proof {
        if maxlen == 0 {
            assert(a@ =~= b@);
        }
    }
    let r128: u128 = (count as u128) * 1000 / (maxlen as u128);
    proof {
        lemma_match_count_bound(a@, b@, minlen as int);
        assert(count == match_count(a@, b@));
        assert(maxlen as int == max_len(a@, b@));
        assert(r128 as int == match_count(a@, b@) * 1000 / max_len(a@, b@));
    }
    r128 as u32
}

// ---------------------------------------------------------------------------
// The detector.
// ---------------------------------------------------------------------------

/// The sum of the per-mille similarities of the first `j` trigger words
/// against the candidate words starting at `i`.
pub open spec fn sim_sum_upto(tw: Seq<Seq<char>>, xw: Seq<Seq<char>>, i: int, j: int) -> int
    decreases j,
{
    if j <= 0 {
        0
    } else {
        sim_sum_upto(tw, xw, i, j - 1) + similarity_permille(xw[i + j - 1], tw[j - 1])
    }
}

/// True when the window of candidate words starting at `i` matches the
/// trigger words: every word pair has similarity at least 300 per-mille, and
/// the similarity total exceeds the sensitivity times the word count.
pub open spec fn window_matches(
    tw: Seq<Seq<char>>,
    xw: Seq<Seq<char>>,
    i: int,
    sens: int,
) -> bool {
    &&& 0 <= i
    &&& i + tw.len() <= xw.len()
    &&& forall|j: int| 0 <= j < tw.len() ==> similarity_permille(xw[i + j], #[trigger] tw[j]) >= 300
    &&& sim_sum_upto(tw, xw, i, tw.len() as int) > sens * tw.len()
}

/// True when the trigger matches the text by fuzzy word comparison: a
/// single-word trigger must exceed the sensitivity against some word of the
/// text; a multi-word trigger must match some window of consecutive words.
pub open spec fn fuzzy_matches(trigger: Seq<char>, text: Seq<char>, sens: int) -> bool {
    let tw = word_seq(trigger);
    let xw = word_seq(text);
    if tw.len() == 1 {
        exists|k: int| 0 <= k < xw.len() && similarity_permille(#[trigger] xw[k], tw[0]) > sens
    } else if tw.len() >= 2 {
        exists|i: int| #[trigger] window_matches(tw, xw, i, sens)
    } else {
        false
    }
}

/// True when the detector with the given trigger fires on the text: an exact
/// substring match always fires; fuzzy matching is attempted only when the
/// sensitivity exceeds 500 per-mille.
pub open spec fn detector_matches(trigger: Seq<char>, text: Seq<char>, sens: int) -> bool {
    contains_seq(text, trigger) || (sens > 500 && fuzzy_matches(trigger, text, sens))
}

/// Detector for a single voice command: a trigger phrase, held lowercase,
/// and the command it triggers.
pub struct CommandDetector {
    /// The trigger text for the command, lowercased.
    trigger: String,
    /// The type of command this detector is for.
    command_type: VoiceCommandType,
}

impl CommandDetector {
    /// The lowercased trigger phrase.
    pub closed spec fn trigger_view(&self) -> Seq<char> {
        self.trigger@
    }

    /// The command this detector fires.
    pub closed spec fn ctype(&self) -> VoiceCommandType {
        self.command_type
    }

    /// The command this detector fires, by reference.
    pub fn command_type_ref(&self) -> (r: &VoiceCommandType)
        ensures
            *r == self.ctype(),
    {
        &self.command_type
    }

    /// Creates a detector; the trigger is lowercased for matching.
    pub fn new(trigger: &str, command_type: VoiceCommandType) -> (r: Self)
        ensures
            r.trigger_view() == lower_of(trigger@),
            r.ctype() == command_type,
    {
        CommandDetector { trigger: lowercase_of(trigger), command_type }
    }

    /// Detects whether this command is present in the given text; the text is
    /// expected already lowercased. Returns the command with the text that
    /// triggered it.
    pub fn detect(&self, text: &str, sensitivity: u32) -> (r: Option<VoiceCommand>)
        ensures
            match r {
                Some(cmd) => detector_matches(self.trigger_view(), text@, sensitivity as int)
                    && cmd.command_type == self.ctype() && cmd.trigger_text@ == text@
                    && cmd.parameters is None,
                None => !detector_matches(self.trigger_view(), text@, sensitivity as int),
            },
    {
        if contains_str(text, self.trigger.as_str()) {
            return Some(VoiceCommand::new(clone_command_type(&self.command_type), text));
        }
        if sensitivity <= 500 {
            return None;
        }
        let text_words = split_words(text);
        let trigger_words = split_words(self.trigger.as_str());
        let ghost tw = word_seq(self.trigger@);
        let ghost xw = word_seq(text@);
        if trigger_words.len() == 1 {
            let mut k: usize = 0;
            while k < text_words.len()
                invariant
                    k <= text_words@.len(),
                    str_views(text_words@) == xw,
                    str_views(trigger_words@) == tw,
                    tw.len() == 1,
                    trigger_words@.len() == 1,
                    tw == word_seq(self.trigger_view()),
                    xw == word_seq(text@),
                    sensitivity > 500,
                    forall|x: int|
                        0 <= x < k ==> !(similarity_permille(#[trigger] xw[x], tw[0])
                            > sensitivity as int),
                decreases text_words@.len() - k,
            {
                let s = word_similarity(text_words[k].as_str(), trigger_words[0].as_str());
                if s > sensitivity {
                    proof {
                        assert(similarity_permille(xw[k as int], tw[0]) > sensitivity as int);
                        assert(fuzzy_matches(self.trigger_view(), text@, sensitivity as int));
                    }
                    return Some(VoiceCommand::new(clone_command_type(&self.command_type), text));
                }
                k = k + 1;
            }
            return None;
        }
        if trigger_words.len() >= 2 && text_words.len() >= trigger_words.len() {
            let tl = trigger_words.len();
            let xl = text_words.len();
            let mut i: usize = 0;
            while i <= xl - tl
                invariant
                    i <= xl - tl + 1,
                    2 <= tl <= xl,
                    tl == tw.len(),
                    xl == xw.len(),
                    str_views(text_words@) == xw,
                    str_views(trigger_words@) == tw,
                    tw == word_seq(self.trigger_view()),
                    xw == word_seq(text@),
                    sensitivity > 500,
                    forall|x: int| 0 <= x < i ==> !#[trigger] window_matches(
                        tw,
                        xw,
                        x,
                        sensitivity as int,
                    ),
                decreases xl - i,
            {
                let mut j: usize = 0;
                let mut total: u128 = 0;
                let mut all_pass = true;
                while j < tl
                    invariant
                        j <= tl,
                        2 <= tl <= xl,
                        i + tl <= xl,
                        tl == tw.len(),
                        xl == xw.len(),
                        str_views(text_words@) == xw,
                        str_views(trigger_words@) == tw,
                        total == sim_sum_upto(tw, xw, i as int, j as int),
                        total <= 1000 * j,
                        all_pass ==> forall|y: int|
                            0 <= y < j ==> similarity_permille(xw[i + y], #[trigger] tw[y]) >= 300,
                        !all_pass ==> !window_matches(tw, xw, i as int, sensitivity as int),
                    decreases tl - j,
                {
                    let s = word_similarity(
                        text_words[i + j].as_str(),
                        trigger_words[j].as_str(),
                    );
                    if s < 300 {
                        all_pass = false;
                    }
                    proof {
                        lemma_similarity(xw[i + j], tw[j as int]);
                    }
                    total = total + s as u128;
                    j = j + 1;
                }
                proof {
                    assert((sensitivity as u128) * (tl as u128)
                        < 0x1_0000_0000_0000_0000_0000_0000u128) by (nonlinear_arith)
                        requires
                            sensitivity as u128 <= 0xFFFF_FFFFu128,
                            tl as u128 <= 0xFFFF_FFFF_FFFF_FFFFu128,
                    ;
                }
                if all_pass && total > (sensitivity as u128) * (tl as u128) {
                    assert(window_matches(tw, xw, i as int, sensitivity as int));
                    assert(fuzzy_matches(self.trigger_view(), text@, sensitivity as int));
                    return Some(VoiceCommand::new(clone_command_type(&self.command_type), text));
                }
                assert(!window_matches(tw, xw, i as int, sensitivity as int));
                i = i + 1;
            }
            assert forall|x: int| !window_matches(tw, xw, x, sensitivity as int) by {
                if 0 <= x && x + tw.len() <= xw.len() {
                    assert(x <= xl - tl);
                }
            }
            return None;
        }
        proof {
            if tw.len() >= 2 {
                assert(xw.len() < tw.len());
                assert forall|x: int| !window_matches(tw, xw, x, sensitivity as int) by {}
            }
        }
        None
    }
}

} // verus!
