//! The preset cycler: which preset is active, and which comes next.

use vstd::prelude::*;
use vstd::string::{StrSliceExecFns, StringExecFns};
use vstd::utf8::{decode_utf8, encode_utf8, valid_utf8};
use vstd::utf8::{encode_utf8_decode_utf8, encode_utf8_valid_utf8};
use crate::cycle::{after_steps, distinct, following, next_place, place_after, position_of};
use crate::cycle::{lemma_cycle_closes, lemma_following_in_distinct};
use crate::cycle::{lemma_found, lemma_not_found};
use crate::error::{text_of, SwitchError};
use crate::text::{decode, same_text, texts};

verus! {

/// A list of presets to cycle through has at least one preset and names none twice.
pub open spec fn valid_presets(names: Seq<Seq<char>>) -> bool {
    names.len() > 0 && distinct(names)
}

/// How the settings store answers when the preset called `name` is active:
/// with the name in single quotes, and a newline.
pub open spec fn quoted(name: Seq<char>) -> Seq<char> {
    seq!['\''] + name + seq!['\'', '\n']
}

/// The name inside an answer of the settings store, where the answer has the
/// form of one: a quote at the start, a quote and a newline at the end.
pub open spec fn unquoted(answer: Seq<char>) -> Option<Seq<char>> {
    let len = answer.len() as int;
    if len >= 3 && answer[0] == '\'' && answer[len - 2] == '\'' && answer[len - 1] == '\n' {
        Some(answer.subrange(1, len - 2))
    } else {
        None
    }
}

/// The active preset according to what the settings store wrote.
pub open spec fn current_preset(output: Seq<u8>) -> Result<Seq<char>, SwitchError> {
    if !valid_utf8(output) {
        Err(SwitchError::InvalidUtf8)
    } else {
        match unquoted(decode_utf8(output)) {
            Some(name) => Ok(name),
            None => Err(SwitchError::MalformedPreset),
        }
    }
}

/// The line that tells the user which preset was set.
pub open spec fn preset_confirmation(name: Seq<char>) -> Seq<char> {
    "Set preset to "@ + name
}

/// The preset to load and the line to show for it.
#[derive(Debug, PartialEq, Eq)]
pub struct PresetChange {
    pub preset: String,
    pub message: String,
}

/// The presets that are cycled through where the caller has no list of its own.
pub fn default_presets() -> (presets: Vec<String>)
    ensures
        texts(presets@) == seq!["Bose"@, "AKG + TAGA amp"@, "Voice Booster"@],
        valid_presets(texts(presets@)),
{
    let mut presets: Vec<String> = Vec::new();
    presets.push(String::from_str("Bose"));
    presets.push(String::from_str("AKG + TAGA amp"));
    presets.push(String::from_str("Voice Booster"));
    proof {
        reveal_strlit("Bose");
        reveal_strlit("AKG + TAGA amp");
        reveal_strlit("Voice Booster");
        assert(texts(presets@) =~= seq!["Bose"@, "AKG + TAGA amp"@, "Voice Booster"@]);
        assert("Bose"@.len() == 4 && "AKG + TAGA amp"@.len() == 14 && "Voice Booster"@.len() == 13);
    }
    presets
}

/// The name of the active preset, from what the settings store wrote when asked for it.
pub fn get_current_preset(output: &[u8]) -> (name: Result<String, SwitchError>)
    ensures
        text_of(name) == current_preset(output@),
{
    let answer = match decode(output) {
        Ok(answer) => answer,
        Err(error) => {
            return Err(error);
        },
    };
    let len: usize = answer.unicode_len();
    if len < 3 {
        return Err(SwitchError::MalformedPreset);
    }
    if answer.get_char(0) != '\'' || answer.get_char(len - 2) != '\'' || answer.get_char(len - 1)
        != '\n' {
        return Err(SwitchError::MalformedPreset);
    }
    Ok(String::from_str(answer.substring_char(1, len - 2)))
}

/// The place of the active preset in the list.
pub fn get_current_preset_index(presets: &Vec<String>, current: &str) -> (place: Result<
    usize,
    SwitchError,
>)
    ensures
        match place {
            Ok(at) => at < presets.len() && position_of(texts(presets@), current@) == Some(
                at as int,
            ),
            Err(error) => error == SwitchError::UnknownPreset && position_of(
                texts(presets@),
                current@,
            ) is None,
        },
{
    let ghost names = texts(presets@);
    let mut at: usize = 0;
    while at < presets.len()
        invariant
            at <= presets.len(),
            names == texts(presets@),
            forall|k: int| 0 <= k < at ==> names[k] != current@,
        decreases presets.len() - at,
    {
        if same_text(presets[at].as_str(), current) {
            proof {
                lemma_found(names, current@, at as int);
            }
            return Ok(at);
        }
        at += 1;
    }
    proof {
        lemma_not_found(names, current@);
    }
    Err(SwitchError::UnknownPreset)
}

/// The place of the preset that comes after the active one; after the last
/// comes the first.
pub fn get_next_preset_index(presets: &Vec<String>, current: &str) -> (place: Result<
    usize,
    SwitchError,
>)
    ensures
        match place {
            Ok(next) => next < presets.len() && next_place(texts(presets@), current@) == Some(
                next as int,
            ),
            Err(error) => error == SwitchError::UnknownPreset && next_place(
                texts(presets@),
                current@,
            ) is None,
        },
{
    match get_current_preset_index(presets, current) {
        Ok(at) => {
            let len: usize = presets.len();
            Ok((at + 1) % len)
        },
        Err(error) => Err(error),
    }
}

/// The preset to switch to from the active one, and the line that confirms the switch.
pub fn set_next_preset(presets: &Vec<String>, current: &str) -> (change: Result<
    PresetChange,
    SwitchError,
>)
    ensures
        match change {
            Ok(change) => following(texts(presets@), current@) == Some(change.preset@)
                && change.message@ == preset_confirmation(change.preset@),
            Err(error) => error == SwitchError::UnknownPreset && following(
                texts(presets@),
                current@,
            ) is None,
        },
{
    match get_next_preset_index(presets, current) {
        Ok(next) => {
            let preset = presets[next].clone();
            let message = String::from_str("Set preset to ").concat(preset.as_str());
            Ok(PresetChange { preset, message })
        },
        Err(error) => Err(error),
    }
}

/// An answer of the settings store holds the name that was quoted, and only
/// answers that quote a name hold one.
pub proof fn lemma_unquoted_quoted(name: Seq<char>, answer: Seq<char>)
    ensures
        unquoted(quoted(name)) == Some(name),
        unquoted(answer) == Some(name) <==> answer == quoted(name),
{
    let framed = quoted(name);
    assert(framed.subrange(1, framed.len() - 2) =~= name);
    if unquoted(answer) == Some(name) {
        assert(answer =~= quoted(name));
    }
}

/// Reading after writing: once the preset that `set_next_preset` chose is the
/// active one, the settings store answers with its quoted name, and
/// `get_current_preset` reads that very name from the answer.
pub proof fn lemma_get_after_next(names: Seq<Seq<char>>, current: Seq<char>, next: Seq<char>)
    requires
        following(names, current) == Some(next),
    ensures
        current_preset(encode_utf8(quoted(next))) == Ok::<Seq<char>, SwitchError>(next),
{
    encode_utf8_valid_utf8(quoted(next));
    encode_utf8_decode_utf8(quoted(next));
    lemma_unquoted_quoted(next, quoted(next));
}

/// Stepping through a valid list of presets: from the preset at `at` the next
/// one is the preset one place further on, the first after the last; and as
/// many steps as there are presets lead back to where they began.
pub proof fn lemma_presets_cycle(names: Seq<Seq<char>>, at: int)
    requires
        valid_presets(names),
        0 <= at < names.len(),
    ensures
        position_of(names, names[at]) == Some(at),
        following(names, names[at]) == Some(names[place_after(at, names.len() as int)]),
        after_steps(names, names[at], names.len()) == Some(names[at]),
{
    lemma_following_in_distinct(names, at);
    lemma_cycle_closes(names, at);
}

} // verus!
