//! What numbers, texts and headers mean, said character by character and byte by
//! byte, and that the functions which read and write them agree with it.

use crate::config;
use crate::config::{DownloadConfig, ProxyMode};
use crate::laws;
use crate::response;
use crate::response::ResponseHead;
use crate::text;
use vstd::prelude::*;

verus! {

/// One of the characters `0` to `9`.
pub open spec fn is_digit(c: char) -> bool {
    48 <= c as u32 && c as u32 <= 57
}

/// One of the characters `0` to `9`, as an ASCII byte.
pub open spec fn is_digit_byte(b: u8) -> bool {
    48 <= b && b <= 57
}

/// Visible ASCII, a blank or a tab.
pub open spec fn is_readable_byte(b: u8) -> bool {
    32 <= b && b <= 126 || b == 9
}

/// The number that a row of decimal digits writes.
pub open spec fn number_of(digits: Seq<char>) -> nat
    decreases digits.len(),
{
    if digits.len() == 0 {
        0
    } else {
        10 * number_of(digits.drop_last()) + (digits.last() as u32 - 48) as nat
    }
}

/// `s` writes `n` in decimal: only the digits `0` to `9`, at least one, and none
/// that could be left out at the front.
pub open spec fn writes(s: Seq<char>, n: nat) -> bool {
    &&& s.len() > 0
    &&& forall|i: int| 0 <= i < s.len() ==> is_digit(#[trigger] s[i])
    &&& s.len() > 1 ==> s[0] != '0'
    &&& number_of(s) == n
}

/// The number that a row of ASCII digits writes.
pub open spec fn bytes_number(digits: Seq<u8>) -> nat
    decreases digits.len(),
{
    if digits.len() == 0 {
        0
    } else {
        10 * bytes_number(digits.drop_last()) + (digits.last() - 48) as nat
    }
}

/// Every byte is a digit.
pub open spec fn are_digits(value: Seq<u8>) -> bool {
    forall|i: int| 0 <= i < value.len() ==> is_digit_byte(#[trigger] value[i])
}

/// The bytes after a plus sign, all of them where there is none.
pub open spec fn unsigned(value: Seq<u8>) -> Seq<u8> {
    if value.len() > 0 && value[0] == 43 {
        value.skip(1)
    } else {
        value
    }
}

/// The number that the bytes of a header value write: ASCII digits, after a plus
/// sign or not, of a value below two to the power of 64.
pub open spec fn number_in(value: Seq<u8>) -> Option<u64> {
    let digits = unsigned(value);
    if digits.len() > 0 && are_digits(digits) && bytes_number(digits)
        < 0x1_0000_0000_0000_0000 {
        Some(bytes_number(digits) as u64)
    } else {
        None
    }
}

/// The bytes after the last slash, all of them where there is none.
pub open spec fn after_slash(value: Seq<u8>) -> Seq<u8>
    decreases value.len(),
{
    if value.len() == 0 || value.last() == 47 {
        seq![]
    } else {
        after_slash(value.drop_last()).push(value.last())
    }
}

/// Every byte is visible ASCII, a blank or a tab.
pub open spec fn is_readable(value: Seq<u8>) -> bool {
    forall|i: int| 0 <= i < value.len() ==> is_readable_byte(#[trigger] value[i])
}

/// The length that a response gives for its body.
pub open spec fn length_of(head: ResponseHead) -> Option<u64> {
    match head.content_length {
        Some(value) => number_in(value@),
        None => None,
    }
}

/// The size of the whole file that a response gives beside the range that it holds.
pub open spec fn range_size_of(head: ResponseHead) -> Option<u64> {
    match head.content_range {
        Some(value) => if is_readable(value@) {
            number_in(after_slash(value@))
        } else {
            None
        },
        None => None,
    }
}

/// The bytes as characters.
spec fn as_chars(value: Seq<u8>) -> Seq<char> {
    Seq::new(value.len(), |i: int| value[i] as char)
}

proof fn lemma_numbers_agree(value: Seq<u8>)
    requires
        are_digits(value),
    ensures
        text::digits_value(as_chars(value)) == bytes_number(value),
        text::all_digits(as_chars(value)),
    decreases value.len(),
{
    if value.len() > 0 {
        lemma_numbers_agree(value.drop_last());
        assert(as_chars(value).drop_last() =~= as_chars(value.drop_last()));
    }
}

proof fn lemma_number_in(value: Seq<u8>)
    requires
        is_readable(value),
    ensures
        text::parsed_u64(as_chars(value)) == number_in(value),
{
    let chars = as_chars(value);
    let digits = unsigned(value);
    assert(text::without_plus(chars) =~= as_chars(digits));
    if are_digits(digits) {
        lemma_numbers_agree(digits);
    } else {
        let i = choose|i: int| 0 <= i < digits.len() && !is_digit_byte(#[trigger] digits[i]);
        assert(!text::is_digit(as_chars(digits)[i]));
    }
}

proof fn lemma_after_slash(value: Seq<u8>)
    requires
        is_readable(value),
    ensures
        text::after_last(as_chars(value), '/') == as_chars(after_slash(value)),
        is_readable(after_slash(value)),
    decreases value.len(),
{
    if value.len() > 0 {
        lemma_after_slash(value.drop_last());
        assert(as_chars(value).drop_last() =~= as_chars(value.drop_last()));
        if value.last() != 47 {
            assert(as_chars(value).last() != '/');
            assert(as_chars(after_slash(value)) =~= as_chars(after_slash(value.drop_last())).push(
                value.last() as char,
            ));
        }
    }
    assert(as_chars(Seq::<u8>::empty()) =~= Seq::<char>::empty());
}

/// What the library reads in the two headers is what their bytes write.
pub proof fn law_headers_are_read_as_written(head: ResponseHead)
    ensures
        response::header_number(head.content_length) == length_of(head),
        response::range_total(head.content_range) == range_size_of(head),
{
    if let Some(value) = head.content_length {
        if is_readable(value@) {
            lemma_number_in(value@);
            assert(response::header_chars(value@)->0 =~= as_chars(value@));
        } else {
            let at = choose|i: int|
                0 <= i < value@.len() && !is_readable_byte(#[trigger] value@[i]);
            assert(!response::is_text_byte(value@[at]));
            if value@.len() > 0 && value@[0] == 43 {
                assert(unsigned(value@)[at - 1] == value@[at]);
                assert(!is_digit_byte(unsigned(value@)[at - 1]));
            } else {
                assert(!is_digit_byte(unsigned(value@)[at]));
            }
        }
    }
    if let Some(value) = head.content_range {
        if is_readable(value@) {
            lemma_after_slash(value@);
            lemma_number_in(after_slash(value@));
            assert(response::header_chars(value@)->0 =~= as_chars(value@));
        } else {
            let at = choose|i: int|
                0 <= i < value@.len() && !is_readable_byte(#[trigger] value@[i]);
            assert(!response::is_text_byte(value@[at]));
        }
    }
}

/// A size is probed where the server answers with a status of 200 to 299 and a
/// content length, and it is the number that the content length writes, however
/// large; any other answer, and none at all, tells no size.
pub proof fn law_probe_reads_the_content_length(response: Option<ResponseHead>)
    ensures
        response matches Some(head) ==> 200 <= head.status <= 299 ==> response::probed_size(
            response,
        ) == length_of(head),
        response matches Some(head) ==> !(200 <= head.status <= 299) ==> response::probed_size(
            response,
        ) is None,
        response is None ==> response::probed_size(response) is None,
{
    if let Some(head) = response {
        law_headers_are_read_as_written(head);
    }
}

/// The digits of a number, as bytes, are read as that number.
pub proof fn law_written_number_is_read_back(value: Seq<u8>, n: u64)
    requires
        value.len() > 0,
        are_digits(value),
        bytes_number(value) == n,
    ensures
        number_in(value) == Some(n),
{
}

/// The size of the whole file: where the response holds a range, the size given
/// beside the range, or else the length of the body and what was there before;
/// otherwise the length of the body.
pub proof fn law_whole_size_is_read_from_the_headers(head: ResponseHead, resumed: nat)
    ensures
        head.status == 206 && range_size_of(head) is Some ==> head.whole_size(resumed) == Some(
            range_size_of(head)->0 as nat,
        ),
        head.status == 206 && range_size_of(head) is None && length_of(head) is Some
            ==> head.whole_size(resumed) == Some((length_of(head)->0 + resumed) as nat),
        head.status == 206 && range_size_of(head) is None && length_of(head) is None
            ==> head.whole_size(resumed) is None,
        head.status != 206 && length_of(head) is Some ==> head.whole_size(resumed) == Some(
            length_of(head)->0 as nat,
        ),
        head.status != 206 && length_of(head) is None ==> head.whole_size(resumed) is None,
        head.size_fits(resumed) <==> !(head.status == 206 && range_size_of(head) is None
            && length_of(head) is Some && length_of(head)->0 + resumed
            >= 0x1_0000_0000_0000_0000),
{
    law_headers_are_read_as_written(head);
}

/// The text for a number writes that number.
pub proof fn law_decimal_writes_the_number(n: nat)
    ensures
        writes(text::decimal(n), n),
    decreases n,
{
    let digits = text::decimal(n);
    if n < 10 {
        assert(digits.drop_last() =~= Seq::<char>::empty());
        assert(number_of(digits.drop_last()) == 0);
    } else {
        law_decimal_writes_the_number(n / 10);
        assert(digits.drop_last() =~= text::decimal(n / 10));
        assert forall|i: int| 0 <= i < digits.len() implies is_digit(#[trigger] digits[i]) by {
            if i < digits.len() - 1 {
                assert(digits[i] == text::decimal(n / 10)[i]);
            }
        }
        if text::decimal(n / 10).len() == 1 {
            assert(text::decimal(n / 10).drop_last() =~= Seq::<char>::empty());
            assert(number_of(text::decimal(n / 10).drop_last()) == 0);
        }
        assert(digits[0] == text::decimal(n / 10)[0]);
    }
}

/// A text is read as a number exactly where it is a row of digits, after a plus
/// sign or not, for a number below two to the power of 64.
pub proof fn law_digits_are_read_as_their_number(digits: Seq<char>)
    requires
        digits.len() > 0,
        forall|i: int| 0 <= i < digits.len() ==> is_digit(#[trigger] digits[i]),
    ensures
        number_of(digits) < 0x1_0000_0000_0000_0000 ==> {
            &&& text::parsed_u64(digits) == Some(number_of(digits) as u64)
            &&& text::parsed_u64(seq!['+'] + digits) == Some(number_of(digits) as u64)
        },
        number_of(digits) >= 0x1_0000_0000_0000_0000 ==> {
            &&& text::parsed_u64(digits) is None
            &&& text::parsed_u64(seq!['+'] + digits) is None
        },
{
    lemma_number_of(digits);
    assert(is_digit(digits[0]));
    assert(text::without_plus(digits) == digits);
    assert((seq!['+'] + digits).skip(1) =~= digits);
}

/// A text with anything but digits in it, a plus sign at its front aside, is
/// read as no number, and neither is one without digits.
pub proof fn law_other_texts_are_no_numbers(s: Seq<char>, at: int)
    requires
        s.len() == 0 || s == seq!['+'] || (0 <= at < s.len() && !is_digit(s[at]) && !(at == 0
            && s[at] == '+')),
    ensures
        text::parsed_u64(s) is None,
{
    let digits = text::without_plus(s);
    if s.len() > 0 && s != seq!['+'] {
        if s[0] == '+' {
            assert(digits[at - 1] == s[at]);
            assert(!text::is_digit(digits[at - 1]));
        } else {
            assert(!text::is_digit(digits[at]));
        }
    }
}

proof fn lemma_number_of(digits: Seq<char>)
    requires
        forall|i: int| 0 <= i < digits.len() ==> is_digit(#[trigger] digits[i]),
    ensures
        text::digits_value(digits) == number_of(digits),
        text::all_digits(digits),
    decreases digits.len(),
{
    if digits.len() > 0 {
        lemma_number_of(digits.drop_last());
    }
}

/// One of the characters that Unicode counts as white space.
pub open spec fn is_blank(c: char) -> bool {
    ||| c == '\t' || c == '\n' || c == '\u{b}' || c == '\u{c}' || c == '\r' || c == ' '
    ||| c == '\u{85}' || c == '\u{a0}' || c == '\u{1680}'
    ||| c == '\u{2000}' || c == '\u{2001}' || c == '\u{2002}' || c == '\u{2003}'
    ||| c == '\u{2004}' || c == '\u{2005}' || c == '\u{2006}' || c == '\u{2007}'
    ||| c == '\u{2008}' || c == '\u{2009}' || c == '\u{200a}'
    ||| c == '\u{2028}' || c == '\u{2029}' || c == '\u{202f}' || c == '\u{205f}'
    ||| c == '\u{3000}'
}

/// Nothing but white space.
pub open spec fn are_blanks(s: Seq<char>) -> bool {
    forall|i: int| 0 <= i < s.len() ==> is_blank(#[trigger] s[i])
}

/// No white space at either end.
pub open spec fn is_bare(s: Seq<char>) -> bool {
    s.len() > 0 ==> !is_blank(s.first()) && !is_blank(s.last())
}

/// Trimming takes away the white space around a text and nothing else.
pub proof fn law_trimming_removes_what_surrounds(
    before: Seq<char>,
    middle: Seq<char>,
    after: Seq<char>,
)
    requires
        are_blanks(before),
        is_bare(middle),
        are_blanks(after),
    ensures
        text::trimmed(before + middle + after) == middle,
{
    lemma_trimmed_start(before, middle + after);
    assert(before + middle + after =~= before + (middle + after));
    if middle.len() > 0 {
        assert((middle + after).first() == middle.first());
        lemma_blanks_are_white_space(middle.first());
        assert(text::trimmed_start(middle + after) == middle + after);
        lemma_trimmed_end(middle, after);
    } else {
        lemma_trimmed_start(after, Seq::empty());
        assert(middle + after =~= after + Seq::<char>::empty());
        assert(middle =~= Seq::<char>::empty());
        assert(text::trimmed_end(Seq::<char>::empty()) == Seq::<char>::empty());
    }
}

proof fn lemma_blanks_are_white_space(c: char)
    ensures
        text::is_white_space(c) == is_blank(c),
{
}

proof fn lemma_trimmed_start(before: Seq<char>, rest: Seq<char>)
    requires
        are_blanks(before),
    ensures
        text::trimmed_start(before + rest) == text::trimmed_start(rest),
    decreases before.len(),
{
    if before.len() > 0 {
        assert(is_blank(before[0]));
        lemma_blanks_are_white_space(before[0]);
        assert(before.drop_first() + rest =~= (before + rest).drop_first());
        lemma_trimmed_start(before.drop_first(), rest);
    } else {
        assert(before + rest =~= rest);
    }
}

proof fn lemma_trimmed_end(middle: Seq<char>, after: Seq<char>)
    requires
        middle.len() > 0,
        !is_blank(middle.last()),
        are_blanks(after),
    ensures
        text::trimmed_end(middle + after) == middle,
    decreases after.len(),
{
    if after.len() > 0 {
        assert(is_blank(after.last()));
        lemma_blanks_are_white_space(after.last());
        assert((middle + after).drop_last() =~= middle + after.drop_last());
        lemma_trimmed_end(middle, after.drop_last());
    } else {
        lemma_blanks_are_white_space(middle.last());
        assert(middle + after =~= middle);
    }
}

/// `count` times the character `c`.
pub open spec fn repeated(c: char, count: nat) -> Seq<char> {
    Seq::new(count, |i: int| c)
}

/// Cutting off a character at the end of a text cuts off all copies of it there,
/// and nothing else.
pub proof fn law_all_trailing_copies_are_cut(s: Seq<char>, c: char, count: nat)
    requires
        s.len() > 0 ==> s.last() != c,
    ensures
        text::without_trailing(s + repeated(c, count), c) == s,
    decreases count,
{
    if count > 0 {
        assert((s + repeated(c, count)).drop_last() =~= s + repeated(c, (count - 1) as nat));
        law_all_trailing_copies_are_cut(s, c, (count - 1) as nat);
    } else {
        assert(s + repeated(c, 0) =~= s);
    }
}

/// The last part of a text is what follows the last of the given character, and
/// the whole text where there is none.
pub proof fn law_last_part_follows_the_last_mark(lead: Seq<char>, tail: Seq<char>, c: char)
    requires
        !tail.contains(c),
    ensures
        text::after_last(lead.push(c) + tail, c) == tail,
        text::after_last(tail, c) == tail,
    decreases tail.len(),
{
    let whole = lead.push(c) + tail;
    if tail.len() > 0 {
        assert(whole.drop_last() =~= lead.push(c) + tail.drop_last());
        assert(tail.contains(tail.last()));
        assert forall|i: int| 0 <= i < tail.len() - 1 implies tail.drop_last()[i] != c by {
            assert(tail.contains(tail[i]));
        }
        law_last_part_follows_the_last_mark(lead, tail.drop_last(), c);
        assert(tail.drop_last().push(tail.last()) =~= tail);
    } else {
        assert(whole.last() == c);
        assert(tail =~= Seq::<char>::empty());
    }
}

/// A text holds a pattern exactly where it is something, the pattern and
/// something else in a row.
pub proof fn law_pattern_occurs_where_it_stands(s: Seq<char>, pattern: Seq<char>)
    ensures
        text::occurs(s, pattern) <==> exists|before: Seq<char>, after: Seq<char>|
            s == #[trigger] (before + pattern + after),
{
    if text::occurs(s, pattern) {
        let at = choose|at: int| text::occurs_at(s, pattern, at);
        assert(s =~= s.take(at) + pattern + s.skip(at + pattern.len()));
    }
    if exists|before: Seq<char>, after: Seq<char>| s == #[trigger] (before + pattern + after) {
        let (before, after) = choose|before: Seq<char>, after: Seq<char>|
            s == #[trigger] (before + pattern + after);
        assert(s.subrange(before.len() as int, (before.len() + pattern.len()) as int) =~= pattern);
        assert(text::occurs_at(s, pattern, before.len() as int));
    }
}

/// `pattern` stands nowhere in `s`.
pub open spec fn is_without(s: Seq<char>, pattern: Seq<char>) -> bool {
    forall|before: Seq<char>, after: Seq<char>| s != #[trigger] (before + pattern + after)
}

/// `pattern` stands in `before + pattern + after` after `before`, and nowhere
/// further to the left.
pub open spec fn is_first(before: Seq<char>, pattern: Seq<char>, after: Seq<char>) -> bool {
    forall|at: int|
        0 <= at < before.len() ==> #[trigger] (before + pattern + after).skip(at).take(
            pattern.len() as int,
        ) != pattern
}

/// Replacing a pattern puts the other text in the place of its first occurrence,
/// leaves what stands before it alone, and goes on after it.
pub proof fn law_replacing_replaces_each_in_turn(
    before: Seq<char>,
    pattern: Seq<char>,
    after: Seq<char>,
    with: Seq<char>,
)
    requires
        pattern.len() > 0,
        is_first(before, pattern, after),
    ensures
        text::replaced(before + pattern + after, pattern, with) == before + with + text::replaced(
            after,
            pattern,
            with,
        ),
    decreases before.len(),
{
    let whole = before + pattern + after;
    let tail = text::replaced(after, pattern, with);
    let count = pattern.len() as int;
    if before.len() == 0 {
        assert(whole.take(count) =~= pattern);
        assert(whole.skip(count) =~= after);
        assert(before + with =~= with);
    } else {
        let rest = before.drop_first();
        assert(whole.skip(0) =~= whole);
        assert(whole.skip(0).take(count) != pattern);
        assert(whole.skip(1) =~= rest + pattern + after);
        assert forall|at: int| 0 <= at < rest.len() implies #[trigger] (rest + pattern
            + after).skip(at).take(count) != pattern by {
            assert(whole.skip(at + 1) =~= (rest + pattern + after).skip(at));
            assert(whole.skip(at + 1).take(count) != pattern);
        }
        law_replacing_replaces_each_in_turn(rest, pattern, after, with);
        assert(seq![whole[0]] + (rest + with + tail) =~= before + with + tail);
    }
}

proof fn lemma_is_without(s: Seq<char>, pattern: Seq<char>)
    ensures
        is_without(s, pattern) == !text::occurs(s, pattern),
{
    law_pattern_occurs_where_it_stands(s, pattern);
}

/// The address behind a proxy that marks no place is the proxy without the
/// slashes at its end, one slash, and the address, for proxies of any length and
/// any number of slashes.
pub proof fn law_address_follows_the_proxy(proxy: Seq<char>, slashes: nat, url: Seq<char>)
    requires
        is_without(proxy, "{url}"@),
        proxy.len() > 0 ==> proxy.last() != '/',
    ensures
        config::proxied(proxy + repeated('/', slashes), url) == proxy + seq!['/'] + url,
    decreases slashes,
{
    reveal_strlit("{url}");
    reveal_strlit("/");
    lemma_is_without(proxy, "{url}"@);
    lemma_slashes_mark_nothing(proxy, slashes);
    law_all_trailing_copies_are_cut(proxy, '/', slashes);
    assert("/"@ =~= seq!['/']);
}

proof fn lemma_slashes_mark_nothing(proxy: Seq<char>, slashes: nat)
    requires
        !text::occurs(proxy, "{url}"@),
    ensures
        !text::occurs(proxy + repeated('/', slashes), "{url}"@),
{
    reveal_strlit("{url}");
    let longer = proxy + repeated('/', slashes);
    assert forall|at: int| !text::occurs_at(longer, "{url}"@, at) by {
        if text::occurs_at(longer, "{url}"@, at) {
            let found = longer.subrange(at, at + 5);
            assert(found[4] == '}');
            assert(longer[at + 4] == '}');
            assert(proxy.subrange(at, at + 5) =~= found);
            assert(text::occurs_at(proxy, "{url}"@, at));
        }
    }
}

/// A proxy that marks places gets the address in each of them: in the first, and
/// then in those of the rest, if it has any.
pub proof fn law_address_takes_the_marked_places(
    before: Seq<char>,
    after: Seq<char>,
    url: Seq<char>,
)
    requires
        is_first(before, "{url}"@, after),
    ensures
        is_without(after, "{url}"@) ==> config::proxied(before + "{url}"@ + after, url) == before
            + url + after,
        !is_without(after, "{url}"@) ==> config::proxied(before + "{url}"@ + after, url) == before
            + url + config::proxied(after, url),
{
    reveal_strlit("{url}");
    let prefix = before + "{url}"@ + after;
    law_pattern_occurs_where_it_stands(prefix, "{url}"@);
    law_replacing_replaces_each_in_turn(before, "{url}"@, after, url);
    lemma_is_without(after, "{url}"@);
    if is_without(after, "{url}"@) {
        laws::law_replacing_nothing_changes_nothing(after, "{url}"@, url);
    }
}

/// Without a proxy the modpack comes from where it is published, and with the
/// preset one from behind that, whatever the user wrote for another.
pub proof fn law_modpack_address(request: DownloadConfig)
    ensures
        ({
            let url =
                "https://github.com/GregTechLite/GregTech-Lite-Modpack/releases/download/nightly/gregtech-lite-nightly-curseforge.zip"@;
            &&& request.proxy_mode is Direct ==> request.source() == Ok::<
                Seq<char>,
                (Seq<char>, Seq<char>),
            >(url)
            &&& request.proxy_mode is Preset ==> request.source() == Ok::<
                Seq<char>,
                (Seq<char>, Seq<char>),
            >("https://gh-proxy.org/"@ + url)
        }),
{
    let proxy = config::PRESET_PROXY_PREFIX@;
    let url = config::MODPACK_URL@;
    reveal_strlit("https://gh-proxy.org/");
    reveal_strlit("{url}");
    let bare = proxy.drop_last();
    assert(bare.last() == 'g');
    assert(bare + repeated('/', 1) =~= proxy);
    assert forall|before: Seq<char>, after: Seq<char>| bare != #[trigger] (before + "{url}"@
        + after) by {
        if bare == before + "{url}"@ + after {
            assert(bare[before.len() as int] == '{');
            assert(false);
        }
    }
    law_address_follows_the_proxy(bare, 1, url);
    assert(bare + seq!['/'] + url =~= proxy + url);
}

/// With a proxy of the user's own, white space around it does not count, and
/// nothing but white space is refused.
pub proof fn law_modpack_address_behind_a_custom_proxy(
    request: DownloadConfig,
    before: Seq<char>,
    proxy: Seq<char>,
    slashes: nat,
    after: Seq<char>,
)
    requires
        request.proxy_mode is Custom,
        are_blanks(before),
        are_blanks(after),
        proxy.len() > 0 ==> !is_blank(proxy.first()) && !is_blank(proxy.last()) && proxy.last()
            != '/',
        request.custom_proxy@ == before + (proxy + repeated('/', slashes)) + after,
    ensures
        proxy.len() == 0 && slashes == 0 ==> request.source() == Err::<
            Seq<char>,
            (Seq<char>, Seq<char>),
        >(("CFG-003"@, "自定义代理地址不能为空"@)),
        proxy.len() + slashes > 0 && is_without(proxy, "{url}"@) ==> request.source() == Ok::<
            Seq<char>,
            (Seq<char>, Seq<char>),
        >(proxy + seq!['/'] + config::MODPACK_URL@),
{
    let given = proxy + repeated('/', slashes);
    if given.len() > 0 {
        if proxy.len() > 0 {
            assert(given.first() == proxy.first());
        }
        if slashes > 0 {
            assert(given.last() == '/');
        } else {
            assert(given =~= proxy);
        }
    }
    law_trimming_removes_what_surrounds(before, given, after);
    if is_without(proxy, "{url}"@) {
        law_address_follows_the_proxy(proxy, slashes, config::MODPACK_URL@);
    }
}

/// A proxy of the user's own that marks a place gets the address of the modpack there.
pub proof fn law_modpack_address_in_a_marked_place(
    request: DownloadConfig,
    before: Seq<char>,
    left: Seq<char>,
    right: Seq<char>,
    after: Seq<char>,
)
    requires
        request.proxy_mode is Custom,
        are_blanks(before),
        are_blanks(after),
        left.len() > 0 ==> !is_blank(left.first()),
        right.len() > 0 ==> !is_blank(right.last()),
        is_first(left, "{url}"@, right),
        is_without(right, "{url}"@),
        request.custom_proxy@ == before + (left + "{url}"@ + right) + after,
    ensures
        request.source() == Ok::<Seq<char>, (Seq<char>, Seq<char>)>(
            left + config::MODPACK_URL@ + right,
        ),
{
    reveal_strlit("{url}");
    let given = left + "{url}"@ + right;
    if left.len() > 0 {
        assert(given.first() == left.first());
    } else {
        assert(given.first() == '{');
    }
    if right.len() > 0 {
        assert(given.last() == right.last());
    } else {
        assert(given.last() == '}');
    }
    law_trimming_removes_what_surrounds(before, given, after);
    law_address_takes_the_marked_places(left, right, config::MODPACK_URL@);
}

/// The proxy mode is named by a word, white space around it aside. No word and
/// `none` name none, `preset` and `custom` the other two, and any other word is
/// an error that tells it.
pub proof fn law_proxy_mode_is_named_by_a_word(
    before: Seq<char>,
    word: Seq<char>,
    after: Seq<char>,
)
    requires
        are_blanks(before),
        is_bare(word),
        are_blanks(after),
    ensures
        ProxyMode::named(None) == Ok::<ProxyMode, (Seq<char>, Seq<char>)>(ProxyMode::Direct),
        ProxyMode::named(Some(before + word + after)) == if word.len() == 0 || word == "none"@ {
            Ok::<ProxyMode, (Seq<char>, Seq<char>)>(ProxyMode::Direct)
        } else if word == "preset"@ {
            Ok(ProxyMode::Preset)
        } else if word == "custom"@ {
            Ok(ProxyMode::Custom)
        } else {
            Err(("CFG-001"@, "未知代理模式："@ + word))
        },
{
    reveal_strlit("");
    reveal_strlit("none");
    reveal_strlit("preset");
    reveal_strlit("custom");
    law_trimming_removes_what_surrounds(before, word, after);
    assert(word.len() == 0 <==> word =~= ""@);
    let none = "none"@;
    law_trimming_removes_what_surrounds(Seq::empty(), none, Seq::empty());
    assert(Seq::<char>::empty() + none + Seq::<char>::empty() =~= none);
    assert("preset"@.len() == 6 && "custom"@.len() == 6 && "none"@.len() == 4);
    assert("preset"@[0] == 'p' && "custom"@[0] == 'c');
}

/// A request is accepted where its file name, white space around it aside, is
/// not empty and its proxy mode is known; the file name is looked at first. A
/// request without a file name gets that of the published modpack.
pub proof fn law_request_is_checked(
    output_filename: Option<String>,
    proxy_mode: Option<String>,
    before: Seq<char>,
    name: Seq<char>,
    after: Seq<char>,
)
    requires
        are_blanks(before),
        is_bare(name),
        are_blanks(after),
        output_filename matches Some(given) ==> given@ == before + name + after,
        output_filename is None ==> name == "gregtech-lite-nightly-curseforge.zip"@,
    ensures
        ({
            let mode = ProxyMode::named(text::chars_or_none(proxy_mode));
            let checked = DownloadConfig::checked(output_filename, proxy_mode);
            &&& name.len() == 0 ==> checked == Err::<(Seq<char>, ProxyMode), (Seq<char>, Seq<char>)>(
                ("CFG-002"@, "文件名不能为空"@),
            )
            &&& name.len() > 0 && mode is Ok ==> checked == Ok::<
                (Seq<char>, ProxyMode),
                (Seq<char>, Seq<char>),
            >((name, mode->Ok_0))
            &&& name.len() > 0 && mode is Err ==> checked == Err::<
                (Seq<char>, ProxyMode),
                (Seq<char>, Seq<char>),
            >(mode->Err_0)
        }),
        proxy_mode is None ==> text::chars_or_none(proxy_mode) is None,
        proxy_mode matches Some(mode) ==> text::chars_or_none(proxy_mode) == Some(mode@),
{
    law_trimming_removes_what_surrounds(before, name, after);
    law_trimming_removes_what_surrounds(Seq::empty(), name, Seq::empty());
    assert(Seq::<char>::empty() + name + Seq::<char>::empty() =~= name);
}

/// What the user gives is taken as it is, and only what is not given is filled in.
pub proof fn law_given_text_is_taken(value: Option<String>, default: Seq<char>)
    ensures
        value matches Some(given) ==> config::given_or(value, default) == given@,
        value is None ==> config::given_or(value, default) == default,
{
}

/// A status reports success exactly if it is one of 200 to 299, and a header
/// value is text exactly if all its bytes are readable, which are then its
/// characters.
pub proof fn law_statuses_and_header_texts(status: u16, value: Seq<u8>)
    ensures
        response::is_success(status) <==> 200 <= status <= 299,
        response::header_chars(value) is Some <==> is_readable(value),
        is_readable(value) ==> {
            &&& response::header_chars(value)->0.len() == value.len()
            &&& forall|i: int|
                0 <= i < value.len() ==> #[trigger] response::header_chars(value)->0[i]
                    == value[i] as char
        },
{
    if is_readable(value) {
        assert forall|i: int| 0 <= i < value.len() implies response::is_text_byte(
            #[trigger] value[i],
        ) by {
            assert(is_readable_byte(value[i]));
        }
    } else {
        let at = choose|i: int| 0 <= i < value.len() && !is_readable_byte(#[trigger] value[i]);
        assert(!response::is_text_byte(value[at]));
    }
}

} // verus!
