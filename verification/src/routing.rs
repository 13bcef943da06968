//! The choice of the output device: what a client may ask for, and how the
//! choice is kept on disk.

use crate::paths::opt_text;
use crate::service::{opt_string, InvalidArgs};
use crate::text::{
    all_white, chars_of, eq_ignore_case, is_graphic, join3, law_same_but_case, law_trimmed,
    lemma_trimmed_ends, lemma_trimmed_id, same_but_case, spec_is_graphic, spec_is_white_space,
    str_eq, trim, trimmed,
};
use vstd::prelude::*;

verus! {

/// The request asks for automatic routing.
pub open spec fn asks_automatic(name: Seq<char>) -> bool {
    ||| trimmed(name).len() == 0
    ||| same_but_case(trimmed(name), "auto"@)
    ||| same_but_case(trimmed(name), "automatic"@)
}

/// A sink that the output can be pinned to: no more than 256 printable ASCII
/// characters, and not BigSound's own sink.
pub open spec fn pinnable(sink: Seq<char>) -> bool {
    &&& sink.len() <= 256
    &&& sink != "BigSound"@
    &&& forall|i: int| 0 <= i < sink.len() ==> spec_is_graphic(#[trigger] sink[i])
}

/// The request can be met.
pub open spec fn acceptable_choice(name: Seq<char>) -> bool {
    asks_automatic(name) || pinnable(trimmed(name))
}

/// The sink that the request asks for; `None` for automatic routing.
pub open spec fn chosen(name: Seq<char>) -> Option<Seq<char>> {
    if asks_automatic(name) {
        None
    } else {
        Some(trimmed(name))
    }
}

fn is_pinnable(sink: &str) -> (yes: bool)
    ensures
        yes == pinnable(sink@),
{
    let chars: Vec<char> = chars_of(sink);
    if chars.len() > 256 || str_eq(sink, "BigSound") {
        return false;
    }
    let mut i: usize = 0;
    while i < chars.len()
        invariant
            i <= chars@.len(),
            chars@ == sink@,
            forall|j: int| 0 <= j < i ==> spec_is_graphic(#[trigger] chars@[j]),
        decreases chars@.len() - i,
    {
        if !is_graphic(chars[i]) {
            return false;
        }
        i = i + 1;
    }
    true
}

/// The sink that a request asks for: empty, `auto` or `automatic` for automatic
/// routing, otherwise the name of a sink.
pub fn choose_output(name: &str) -> (choice: Result<Option<String>, InvalidArgs>)
    ensures
        choice is Ok <==> acceptable_choice(name@),
        choice matches Ok(target) ==> opt_string(target) == chosen(name@),
        choice matches Err(e) ==> e.message@ == "invalid sink name '"@ + name@ + "'"@,
{
    let sink: String = trim(name);
    if sink.as_str().is_empty() || eq_ignore_case(sink.as_str(), "auto") || eq_ignore_case(
        sink.as_str(),
        "automatic",
    ) {
        Ok(None)
    } else if is_pinnable(sink.as_str()) {
        Ok(Some(sink))
    } else {
        Err(InvalidArgs { message: join3("invalid sink name '", name, "'") })
    }
}

/// What the state file of this text says.
pub open spec fn stored_choice(text: Seq<char>) -> Option<Seq<char>> {
    if trimmed(text).len() == 0 {
        None
    } else {
        Some(trimmed(text))
    }
}

/// The choice kept in the state file, of which `text` is the contents; automatic
/// routing where there is no such file.
pub fn load_output_device(text: Option<&str>) -> (target: Option<String>)
    ensures
        opt_string(target) == match opt_text(text) {
            Some(t) => stored_choice(t),
            None => None,
        },
{
    match text {
        Some(text) => {
            let sink: String = trim(text);
            if sink.as_str().is_empty() {
                None
            } else {
                Some(sink)
            }
        },
        None => None,
    }
}

/// What the state file of a choice holds.
pub open spec fn state_text(target: Option<Seq<char>>) -> Seq<char> {
    match target {
        Some(sink) => sink,
        None => Seq::empty(),
    }
}

/// What is to be written to the state file: the sink, or nothing for automatic
/// routing.
pub fn save_output_device(target: &Option<String>) -> (text: String)
    ensures
        text@ == state_text(opt_string(*target)),
{
    match target {
        Some(sink) => sink.clone(),
        None => String::new(),
    }
}

/// What was saved is what is loaded, for every choice that a request can make.
pub proof fn law_choice_survives_restart(name: Seq<char>)
    requires
        acceptable_choice(name),
    ensures
        stored_choice(state_text(chosen(name))) == chosen(name),
{
    lemma_trimmed_ends(name);
    lemma_trimmed_id(trimmed(name));
}

/// The output is never pinned to BigSound's own sink.
pub proof fn law_never_routed_to_itself(name: Seq<char>)
    requires
        acceptable_choice(name),
    ensures
        chosen(name) != Some("BigSound"@),
{
}

/// Asking for the sink that is chosen makes the same choice again.
pub proof fn law_choice_is_stable(name: Seq<char>)
    requires
        acceptable_choice(name),
    ensures
        acceptable_choice(state_text(chosen(name))),
        chosen(state_text(chosen(name))) == chosen(name),
{
    lemma_trimmed_ends(name);
    lemma_trimmed_id(trimmed(name));
    lemma_trimmed_id(Seq::empty());
}

proof fn lemma_core_ends(core: Seq<char>)
    requires
        core.len() > 0,
        spec_is_graphic(core[0]),
        spec_is_graphic(core.last()),
    ensures
        !spec_is_white_space(core[0]),
        !spec_is_white_space(core.last()),
{
}

/// Every name of 1 to 256 printable characters that is neither BigSound nor a
/// word for automatic routing is accepted, with any white space around it, and
/// chooses exactly that name.
pub proof fn law_names_accepted(before: Seq<char>, sink: Seq<char>, after: Seq<char>)
    requires
        all_white(before),
        all_white(after),
        1 <= sink.len() <= 256,
        forall|i: int| 0 <= i < sink.len() ==> '!' <= #[trigger] sink[i] <= '~',
        sink != "BigSound"@,
        !same_but_case(sink, "auto"@),
        !same_but_case(sink, "automatic"@),
    ensures
        acceptable_choice(before + sink + after),
        chosen(before + sink + after) == Some(sink),
{
    lemma_core_ends(sink);
    law_trimmed(before, sink, after);
}

/// A name that is longer, that holds a character which is not printable, or that
/// is BigSound, is refused, with any white space around it.
pub proof fn law_names_refused(before: Seq<char>, sink: Seq<char>, after: Seq<char>, i: int)
    requires
        all_white(before),
        all_white(after),
        0 <= i < sink.len(),
        !spec_is_white_space(sink[0]),
        !spec_is_white_space(sink.last()),
        sink.len() > 256 || !('!' <= sink[i] <= '~') || sink == "BigSound"@,
        !same_but_case(sink, "auto"@),
        !same_but_case(sink, "automatic"@),
    ensures
        !acceptable_choice(before + sink + after),
{
    law_trimmed(before, sink, after);
}

/// Blanks, and the words auto and automatic in any case, with any white space
/// around them, choose automatic routing.
pub proof fn law_automatic_accepted(before: Seq<char>, word: Seq<char>, after: Seq<char>)
    requires
        all_white(before),
        all_white(after),
        word.len() == 0 || same_but_case(word, "auto"@) || same_but_case(word, "automatic"@),
    ensures
        acceptable_choice(before + word + after),
        chosen(before + word + after) is None,
{
    reveal_strlit("auto");
    reveal_strlit("automatic");
    if word.len() > 0 {
        law_same_but_case(word, "auto"@);
        law_same_but_case(word, "automatic"@);
        let n = word.len() - 1;
        assert(word[0] as u32 == 0x61 || word[0] as u32 == 0x41);
        assert(word[n] as u32 == 0x6f || word[n] as u32 == 0x4f || word[n] as u32 == 0x63
            || word[n] as u32 == 0x43);
    }
    law_trimmed(before, word, after);
}

/// The state file holds the name of the sink and nothing else, or nothing for
/// automatic routing; white space around what it holds does not count.
pub proof fn law_state_file(before: Seq<char>, sink: Seq<char>, after: Seq<char>)
    requires
        all_white(before),
        all_white(after),
        sink.len() > 0,
        !spec_is_white_space(sink[0]),
        !spec_is_white_space(sink.last()),
    ensures
        state_text(Some(sink)) == sink,
        state_text(None) == Seq::<char>::empty(),
        stored_choice(before + sink + after) == Some(sink),
        stored_choice(before + after) is None,
{
    law_trimmed(before, sink, after);
    law_trimmed(before, Seq::empty(), after);
    assert(before + Seq::<char>::empty() + after =~= before + after);
}

/// What a client gets for a name of 1 to 256 printable characters that is neither
/// BigSound nor a word for automatic routing, with any white space around it:
/// that name.
pub proof fn law_name_is_chosen(
    name: &str,
    before: Seq<char>,
    sink: Seq<char>,
    after: Seq<char>,
    choice: Result<Option<String>, InvalidArgs>,
)
    requires
        call_ensures(choose_output, (name,), choice),
        name@ == before + sink + after,
        all_white(before),
        all_white(after),
        1 <= sink.len() <= 256,
        forall|i: int| 0 <= i < sink.len() ==> '!' <= #[trigger] sink[i] <= '~',
        sink != "BigSound"@,
        !same_but_case(sink, "auto"@),
        !same_but_case(sink, "automatic"@),
    ensures
        choice matches Ok(Some(target)) && target@ == sink,
{
    law_names_accepted(before, sink, after);
}

/// A choice that was granted is what is read from the state file that was written
/// for it.
pub proof fn law_choice_is_loaded(
    name: &str,
    target: Option<String>,
    text: String,
    contents: &str,
    loaded: Option<String>,
)
    requires
        call_ensures(choose_output, (name,), Ok(target)),
        call_ensures(save_output_device, (&target,), text),
        contents@ == text@,
        call_ensures(load_output_device, (Some(contents),), loaded),
    ensures
        opt_string(loaded) == opt_string(target),
{
    law_choice_survives_restart(name@);
}

} // verus!
