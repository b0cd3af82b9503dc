//! Framing of Debug Adapter Protocol messages: each message is a
//! `Content-Length` header, an empty line and the JSON body.
use vstd::prelude::*;
use crate::text::{
    append_chars, decimal, decimal_exec, lemma_parse_unsigned_range, parse_unsigned,
    parse_unsigned_exec, split_words, split_words_exec, str_chars, trim_end, trim_end_exec,
    lemma_decimal_digits, lemma_split_word_then_rest, lemma_split_last_word, is_ws,
    is_unicode_ws, unsigned_digits,
};
use vstd::utf8::encode_utf8;

verus! {

/// The body of a `stopped` event.
#[derive(Debug, Clone)]
pub struct StoppedEventBody {
    pub all_threads_stopped: Option<bool>,
    pub description: Option<String>,
    pub preserve_focus_hint: Option<bool>,
    pub reason: String,
    pub text: Option<String>,
    pub thread_id: Option<i64>,
    pub hit_breakpoint_ids: Option<Vec<u32>>,
}

/// The content length that the header line `header` gives: its second word
/// (after trailing whitespace is cut), read as a decimal number.
pub open spec fn content_len(header: Seq<char>) -> Option<int> {
    let words = split_words(trim_end(header), true);
    if words.len() < 2 {
        None
    } else {
        match parse_unsigned(words[1], 10, usize::MAX as int) {
            Ok(n) => Some(n),
            Err(_) => None,
        }
    }
}

/// Reads the content length from a header line such as `Content-Length: 42`.
pub fn get_content_len(header: &str) -> (r: Option<usize>)
    ensures
        match content_len(header@) {
            Some(n) => r == Some(n as usize),
            None => r is None,
        },
{
    let chars = str_chars(header);
    let trimmed = trim_end_exec(&chars);
    let words = split_words_exec(&trimmed, true);
    if words.len() < 2 {
        return None;
    }
    assert(words@[1]@ == split_words(trim_end(header@), true)[1]);
    proof {
        lemma_parse_unsigned_range(words@[1]@, 10, usize::MAX as int);
    }
    match parse_unsigned_exec(&words[1], 10, usize::MAX as u64) {
        Ok(n) => Some(n as usize),
        Err(_) => None,
    }
}

/// The header that goes before a body of `len` bytes.
pub open spec fn content_header(len: nat) -> Seq<char> {
    "Content-Length: "@ + decimal(len) + "\r\n\r\n"@
}

/// A message as it is sent: the header, in UTF-8, then the body.
pub open spec fn framed(body: Seq<u8>) -> Seq<u8> {
    encode_utf8(content_header(body.len())) + body
}

/// Appends the message with body `raw_data` to `writer`; the next sequence
/// number is returned.
pub fn send_data(writer: &mut Vec<u8>, raw_data: &[u8], seq: i64) -> (next: i64)
    requires
        seq < i64::MAX,
    ensures
        final(writer)@ == old(writer)@ + framed(raw_data@),
        next == seq + 1,
{
    let mut header = "Content-Length: ".to_owned();
    append_chars(&mut header, &decimal_exec(raw_data.len() as u64));
    append_chars(&mut header, &str_chars("\r\n\r\n"));
    let bytes = header.as_str().as_bytes();
    let ghost start = writer@;
    let mut i: usize = 0;
    while i < bytes.len()
        invariant
            i <= bytes.len(),
            writer@ == start + bytes@.take(i as int),
        decreases bytes.len() - i,
    {
        writer.push(bytes[i]);
        i += 1;
        assert(bytes@.take(i as int) =~= bytes@.take(i - 1).push(bytes@[i - 1]));
    }
    assert(bytes@.take(bytes.len() as int) =~= bytes@);
    let ghost mid = writer@;
    let mut j: usize = 0;
    while j < raw_data.len()
        invariant
            j <= raw_data.len(),
            writer@ == mid + raw_data@.take(j as int),
        decreases raw_data.len() - j,
    {
        writer.push(raw_data[j]);
        j += 1;
        assert(raw_data@.take(j as int) =~= raw_data@.take(j - 1).push(raw_data@[j - 1]));
    }
    assert(raw_data@.take(raw_data.len() as int) =~= raw_data@);
    assert(writer@ =~= start + framed(raw_data@));
    seq + 1
}

/// Reading back what was written: the header of a message whose body has
/// `n` bytes starts with the line `Content-Length: n` (ending in `\r\n`), and
/// reading the content length from that line gives `n` back.
pub proof fn lemma_header_gives_back_length(n: nat)
    requires
        n <= usize::MAX,
    ensures
        content_header(n) == ("Content-Length: "@ + decimal(n) + "\r\n"@) + "\r\n"@,
        content_len("Content-Length: "@ + decimal(n) + "\r\n"@) == Some(n as int),
{
    reveal_strlit("Content-Length: ");
    reveal_strlit("\r\n");
    reveal_strlit("\r\n\r\n");
    let d = decimal(n);
    lemma_decimal_digits(n);
    let prefix = "Content-Length: "@;
    let word = prefix.take(15);
    let x = prefix + d;
    let h = x + "\r\n"@;
    assert(content_header(n) =~= h + "\r\n"@);
    assert(h.last() == '\n');
    assert(h.drop_last() =~= x.push('\r'));
    assert(h.drop_last().last() == '\r');
    assert(h.drop_last().drop_last() =~= x);
    assert(x.last() == d[d.len() - 1]);
    assert(!is_unicode_ws(x.last()));
    assert(trim_end(x) == x);
    assert(trim_end(h.drop_last()) == trim_end(x));
    assert(trim_end(h) == x);
    assert(x =~= word + seq![' '] + d);
    assert forall|i: int| 0 <= i < word.len() implies !is_ws(#[trigger] word[i], true) by {
        assert(word[i] == prefix[i]);
    }
    assert forall|i: int| 0 <= i < d.len() implies !is_ws(#[trigger] d[i], true) by {}
    lemma_split_word_then_rest(word, ' ', d, seq![], true);
    lemma_split_last_word(d, seq![], true);
    assert(seq![] + word =~= word);
    assert(Seq::<char>::empty() + d =~= d);
    let words = split_words(x, true);
    assert(words =~= seq![word, d]);
    assert(unsigned_digits(d) == d);
    assert(parse_unsigned(d, 10, usize::MAX as int) == Ok::<int, crate::text::ParseNumberError>(
        n as int,
    ));
}

} // verus!
