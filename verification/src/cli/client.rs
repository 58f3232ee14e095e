//! Talking to the daemon: where requests go, and what its responses mean.
use vstd::prelude::*;
use vstd::string::StrSliceExecFns;
use vstd::utf8::{decode_utf8, valid_utf8};

use crate::cli::error::CliError;
use crate::cli::model::{ErrorEnvelope, SearchKind};
use crate::text::{decimal, decimal_text, is_space, is_white_space, joined, push_char};
use crate::web_address::{join_address, joined_address};

verus! {

/// How many characters of a response are shown.
pub const RESPONSE_PREVIEW_MAX: usize = 300;

/// The path of the status request.
pub const STATUS_PATH: &'static str = "v1/status";

/// The text that `String::from_utf8_lossy` reads from bytes.
pub uninterp spec fn lossy_text(bytes: Seq<u8>) -> Seq<char>;

/// Trusted: `String::from_utf8_lossy` depends on the bytes alone, and reads valid UTF-8 as it is.
#[verifier::external_body]
fn from_utf8_lossy(bytes: &[u8]) -> (result: String)
    ensures
        result@ == lossy_text(bytes@),
        valid_utf8(bytes@) ==> result@ == decode_utf8(bytes@),
{
    String::from_utf8_lossy(bytes).into_owned()
}

/// The words of a text: its longest parts without white space.
pub open spec fn words(text: Seq<char>) -> Seq<Seq<char>>
    decreases text.len(),
{
    if text.len() == 0 {
        Seq::empty()
    } else {
        let before = words(text.drop_last());
        let c = text.last();
        if is_white_space(c) {
            before
        } else if text.len() == 1 || is_white_space(text[text.len() - 2]) {
            before.push(seq![c])
        } else {
            before.drop_last().push(before.last().push(c))
        }
    }
}

/// Words with a space between each two.
pub open spec fn spaced(words: Seq<Seq<char>>) -> Seq<char>
    decreases words.len(),
{
    if words.len() == 0 {
        Seq::empty()
    } else if words.len() == 1 {
        words[0]
    } else {
        spaced(words.drop_last()).push(' ') + words.last()
    }
}

/// The start of a text, marked where something was cut off.
pub open spec fn shortened(text: Seq<char>) -> Seq<char> {
    if text.len() <= RESPONSE_PREVIEW_MAX {
        text
    } else {
        text.take(RESPONSE_PREVIEW_MAX as int) + "..."@
    }
}

proof fn lemma_spaced_new_word(list: Seq<Seq<char>>, c: char)
    ensures
        spaced(list.push(seq![c])) == if list.len() == 0 {
            seq![c]
        } else {
            spaced(list).push(' ').push(c)
        },
{
    assert(list.push(seq![c]).drop_last() =~= list);
    if list.len() > 0 {
        assert(spaced(list).push(' ') + seq![c] =~= spaced(list).push(' ').push(c));
    }
}

proof fn lemma_spaced_longer_word(list: Seq<Seq<char>>, c: char)
    requires
        list.len() > 0,
    ensures
        spaced(list.drop_last().push(list.last().push(c))) == spaced(list).push(c),
{
    let longer = list.drop_last().push(list.last().push(c));
    assert(longer.drop_last() =~= list.drop_last());
    if list.len() > 1 {
        let start = spaced(list.drop_last()).push(' ');
        assert(start + list.last().push(c) =~= (start + list.last()).push(c));
    }
}

pub(crate) proof fn lemma_words(text: Seq<char>)
    ensures
        text.len() > 0 && !is_white_space(text.last()) ==> words(text).len() > 0,
        forall|i: int| 0 <= i < words(text).len() ==> (#[trigger] words(text)[i]).len() > 0,
    decreases text.len(),
{
    if text.len() > 0 {
        let before = words(text.drop_last());
        let after = words(text);
        lemma_words(text.drop_last());
        if text.len() > 1 {
            assert(text.drop_last().last() == text[text.len() - 2]);
        }
        assert forall|i: int| 0 <= i < after.len() implies (#[trigger] after[i]).len() > 0 by {
            if i < before.len() {
                assert(after[i] == before[i] || after[i] == before[i].push(text.last()));
            } else {
                assert(after[i] == seq![text.last()]);
            }
        }
    }
}

proof fn lemma_spaced_is_not_empty(list: Seq<Seq<char>>)
    requires
        forall|i: int| 0 <= i < list.len() ==> (#[trigger] list[i]).len() > 0,
    ensures
        spaced(list).len() == 0 <==> list.len() == 0,
{
}

/// The words of a text with one space between each two.
pub fn compact(text: &str) -> (result: String)
    ensures
        result@ == spaced(words(text@)),
{
    let ghost all = text@;
    let mut result: String = String::new();
    let mut after_space = true;
    assert(all.take(0) =~= Seq::<char>::empty());
    for c in iter: text.chars()
        invariant
            iter.seq() == all,
            result@ == spaced(words(all.take(iter.index() as int))),
            after_space == (iter.index() == 0 || is_white_space(all[iter.index() - 1])),
    {
        proof {
            let i = iter.index() as int;
            let before = all.take(i);
            assert(all.take(i + 1).drop_last() =~= before);
            assert(all.take(i + 1).last() == c);
            lemma_words(before);
            lemma_spaced_is_not_empty(words(before));
            lemma_spaced_new_word(words(before), c);
            if words(before).len() > 0 {
                lemma_spaced_longer_word(words(before), c);
            }
            if i > 0 {
                assert(before.last() == all[i - 1]);
                assert(all.take(i + 1)[i - 1] == all[i - 1]);
            }
        }
        if is_space(c) {
            after_space = true;
        } else {
            if after_space && !result.as_str().is_empty() {
                push_char(&mut result, ' ');
            }
            push_char(&mut result, c);
            after_space = false;
        }
    }
    assert(all.take(all.len() as int) =~= all);
    result
}

/// The start of a text, marked where something was cut off.
pub fn shorten(text: &str) -> (result: String)
    ensures
        result@ == shortened(text@),
{
    if text.unicode_len() <= RESPONSE_PREVIEW_MAX {
        let result: String = text.to_owned();
        result
    } else {
        joined(text.substring_char(0, RESPONSE_PREVIEW_MAX), "...")
    }
}

/// What is shown of a response.
pub fn response_preview(body: &[u8]) -> (result: String)
    ensures
        result@ == shortened(spaced(words(lossy_text(body@)))),
        valid_utf8(body@) ==> result@ == shortened(spaced(words(decode_utf8(body@)))),
{
    let text = from_utf8_lossy(body);
    shorten(compact(text.as_str()).as_str())
}

/// A response of the daemon, with what can be read from its body.
pub struct RawResponse<T> {
    pub status: u16,
    /// The body, or why it could not be received.
    pub body: Result<Vec<u8>, String>,
    /// The body read as an error, where that is possible.
    pub envelope: Option<ErrorEnvelope>,
    /// The body read as what was asked for, or why that is impossible.
    pub value: Result<T, String>,
}

/// What is wrong with a response, if anything is, given what is shown of its body.
pub open spec fn response_fault<T>(
    status: u16,
    envelope: Option<ErrorEnvelope>,
    preview: Seq<char>,
    value: Result<T, String>,
) -> Option<Seq<char>> {
    let number = decimal(status as nat);
    if !(200 <= status < 300) {
        match envelope {
            Some(envelope) => Some(
                "API returned "@ + number + " ("@ + envelope.error.code@ + "): "@
                    + envelope.error.message@,
            ),
            None => if preview.len() == 0 {
                Some("API returned HTTP "@ + number)
            } else {
                Some("API returned HTTP "@ + number + ": "@ + preview)
            },
        }
    } else if status != 200 {
        Some("API returned unexpected success status "@ + number)
    } else {
        match value {
            Err(text) => Some("API response is invalid JSON: "@ + text@),
            Ok(_) => None,
        }
    }
}

/// Finds out what a response means, given what is shown of its body.
pub fn interpret_response<T>(
    status: u16,
    envelope: Option<ErrorEnvelope>,
    preview: &str,
    value: Result<T, String>,
) -> (result: Result<T, CliError>)
    ensures
        match response_fault(status, envelope, preview@, value) {
            Some(message) => {
                &&& result matches Err(error)
                &&& error.is_runtime(message)
            },
            None => result == Ok::<T, CliError>(value->Ok_0),
        },
{
    let number = decimal_text(status as u64);
    if status < 200 || status >= 300 {
        match envelope {
            Some(envelope) => {
                let start = joined("API returned ", number.as_str());
                let start = joined(start.as_str(), " (");
                let start = joined(start.as_str(), envelope.error.code.as_str());
                let start = joined(start.as_str(), "): ");
                return Err(
                    CliError::runtime(joined(start.as_str(), envelope.error.message.as_str())),
                );
            },
            None => {
                let start = joined("API returned HTTP ", number.as_str());
                if preview.is_empty() {
                    return Err(CliError::runtime(start));
                }
                return Err(
                    CliError::runtime(joined(joined(start.as_str(), ": ").as_str(), preview)),
                );
            },
        }
    }
    if status != 200 {
        return Err(
            CliError::runtime(
                joined("API returned unexpected success status ", number.as_str()),
            ),
        );
    }
    match value {
        Ok(value) => Ok(value),
        Err(text) => Err(
            CliError::runtime(joined("API response is invalid JSON: ", text.as_str())),
        ),
    }
}

/// Finds out what a response means.
pub fn parse_response<T>(response: RawResponse<T>) -> (result: Result<T, CliError>)
    ensures
        match response.body {
            Err(text) => {
                &&& result matches Err(error)
                &&& error.is_runtime("failed to read API response body: "@ + text@)
            },
            Ok(body) => match response_fault(
                response.status,
                response.envelope,
                shortened(spaced(words(lossy_text(body@)))),
                response.value,
            ) {
                Some(message) => {
                    &&& result matches Err(error)
                    &&& error.is_runtime(message)
                },
                None => result == Ok::<T, CliError>(response.value->Ok_0),
            },
        },
{
    match response.body {
        Err(text) => Err(
            CliError::runtime(joined("failed to read API response body: ", text.as_str())),
        ),
        Ok(body) => {
            let preview = response_preview(body.as_slice());
            interpret_response(
                response.status,
                response.envelope,
                preview.as_str(),
                response.value,
            )
        },
    }
}

/// Why the client could not be set up.
pub fn client_error(text: &str) -> (result: CliError)
    ensures
        result.is_runtime("failed to initialize HTTP client: "@ + text@),
{
    CliError::runtime(joined("failed to initialize HTTP client: ", text))
}

/// Why a request could not be sent.
pub fn request_error(action: &str, text: &str) -> (result: CliError)
    ensures
        result.is_runtime("failed to "@ + action@ + ": "@ + text@),
{
    let start = joined("failed to ", action);
    CliError::runtime(joined(joined(start.as_str(), ": ").as_str(), text))
}

/// What a search request does, in words.
pub fn search_action(kind: SearchKind) -> (result: String)
    ensures
        result@ == "search "@ + kind.name(),
{
    joined("search ", kind.as_str())
}

/// The path of a search request.
pub fn search_path(kind: SearchKind) -> (result: String)
    ensures
        result@ == "v1/search/"@ + kind.name(),
{
    joined("v1/search/", kind.as_str())
}

/// Takes the address of a request, or says why there is none.
pub fn usable_endpoint(address: Result<String, String>) -> (result: Result<String, CliError>)
    ensures
        match address {
            Ok(address) => result == Ok::<String, CliError>(address),
            Err(text) => {
                &&& result matches Err(error)
                &&& error.is_runtime("failed to build API URL: "@ + text@)
            },
        },
{
    match address {
        Ok(address) => Ok(address),
        Err(text) => Err(CliError::runtime(joined("failed to build API URL: ", text.as_str()))),
    }
}

/// The address of a request: the path seen from the base address.
pub fn endpoint(base_url: &str, path: &str) -> (result: Result<String, CliError>)
    ensures
        match joined_address(base_url@, path@) {
            Ok(address) => {
                &&& result matches Ok(text)
                &&& text@ == address
            },
            Err(text) => {
                &&& result matches Err(error)
                &&& error.is_runtime("failed to build API URL: "@ + text)
            },
        },
{
    usable_endpoint(join_address(base_url, path))
}

/// A preview is never longer than the limit and the mark that something was cut off.
pub proof fn previews_are_short(text: Seq<char>)
    ensures
        shortened(text).len() <= RESPONSE_PREVIEW_MAX + 3,
        text.len() <= RESPONSE_PREVIEW_MAX ==> shortened(text) == text,
{
    reveal_strlit("...");
}

/// Compacting leaves single spaces between words as the only white space.
pub proof fn compact_texts_have_no_other_white_space(text: Seq<char>)
    ensures
        forall|i: int|
            0 <= i < spaced(words(text)).len() && is_white_space(#[trigger] spaced(words(text))[i])
                ==> {
                &&& spaced(words(text))[i] == ' '
                &&& 0 < i < spaced(words(text)).len() - 1
                &&& !is_white_space(spaced(words(text))[i - 1])
                &&& !is_white_space(spaced(words(text))[i + 1])
            },
{
    lemma_words(text);
    lemma_words_are_solid(text);
    lemma_spaced_white_space(words(text));
}

proof fn lemma_words_are_solid(text: Seq<char>)
    ensures
        forall|w: int, i: int|
            0 <= w < words(text).len() && 0 <= i < words(text)[w].len() ==> !is_white_space(
                #[trigger] words(text)[w][i],
            ),
    decreases text.len(),
{
    if text.len() > 0 {
        let before = words(text.drop_last());
        let after = words(text);
        lemma_words_are_solid(text.drop_last());
        lemma_words(text.drop_last());
        if text.len() > 1 {
            assert(text.drop_last().last() == text[text.len() - 2]);
        }
        assert forall|w: int, i: int|
            0 <= w < after.len() && 0 <= i < after[w].len() implies !is_white_space(
            #[trigger] after[w][i],
        ) by {
            if w < before.len() && i < before[w].len() {
                assert(after[w][i] == before[w][i]);
            }
        }
    }
}

proof fn lemma_spaced_white_space(list: Seq<Seq<char>>)
    requires
        forall|w: int| 0 <= w < list.len() ==> (#[trigger] list[w]).len() > 0,
        forall|w: int, i: int|
            0 <= w < list.len() && 0 <= i < list[w].len() ==> !is_white_space(
                #[trigger] list[w][i],
            ),
    ensures
        forall|i: int|
            0 <= i < spaced(list).len() && is_white_space(#[trigger] spaced(list)[i]) ==> {
                &&& spaced(list)[i] == ' '
                &&& 0 < i < spaced(list).len() - 1
                &&& !is_white_space(spaced(list)[i - 1])
                &&& !is_white_space(spaced(list)[i + 1])
            },
        list.len() > 0 ==> spaced(list).len() > 0 && !is_white_space(spaced(list).last()),
    decreases list.len(),
{
    if list.len() > 1 {
        let rest = list.drop_last();
        let start = spaced(rest);
        let all = spaced(list);
        assert forall|w: int| 0 <= w < rest.len() implies (#[trigger] rest[w]).len() > 0 by {
            assert(rest[w] == list[w]);
        }
        assert forall|w: int, i: int|
            0 <= w < rest.len() && 0 <= i < rest[w].len() implies !is_white_space(
            #[trigger] rest[w][i],
        ) by {
            assert(rest[w][i] == list[w][i]);
        }
        lemma_spaced_white_space(rest);
        let word = list[list.len() - 1];
        assert(all =~= start.push(' ') + word);
        assert(all.last() == word[word.len() - 1]);
        assert forall|i: int| 0 <= i < all.len() && is_white_space(#[trigger] all[i]) implies {
            &&& all[i] == ' '
            &&& 0 < i < all.len() - 1
            &&& !is_white_space(all[i - 1])
            &&& !is_white_space(all[i + 1])
        } by {
            if i < start.len() {
                assert(all[i] == start[i]);
                assert(all[i - 1] == start[i - 1]);
                assert(all[i + 1] == start[i + 1]);
            } else if i == start.len() {
                assert(all[i - 1] == start.last());
                assert(all[i + 1] == word[0]);
            } else {
                assert(all[i] == word[i - start.len() - 1]);
            }
        }
    } else if list.len() == 1 {
        let word = list[0];
        assert(spaced(list) == word);
        assert(word.last() == word[word.len() - 1]);
    }
}

} // verus!
