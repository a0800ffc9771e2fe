//! What holds of numbers, addresses, names and whole installations.

use crate::config;
use crate::config::{DownloadConfig, ProxyMode};
use crate::install::{Install, StageView};
use crate::paths;
use crate::report;
use crate::report::EventView;
use crate::response;
use crate::text;
use crate::work::{ActionView, Event};
use vstd::prelude::*;

verus! {

proof fn lemma_decimal_is_digits(n: nat)
    ensures
        text::decimal(n).len() > 0,
        text::all_digits(text::decimal(n)),
        text::digits_value(text::decimal(n)) == n,
    decreases n,
{
    let digits = text::decimal(n);
    if n < 10 {
        assert(digits.drop_last() == Seq::<char>::empty());
        assert(text::digits_value(digits.drop_last()) == 0);
    } else {
        lemma_decimal_is_digits(n / 10);
        assert(digits.drop_last() == text::decimal(n / 10));
    }
}

/// Reading a number gives back what writing it wrote.
pub proof fn law_parsing_undoes_writing(n: u64)
    ensures
        text::parsed_u64(text::decimal(n as nat)) == Some(n),
{
    lemma_decimal_is_digits(n as nat);
    assert(text::is_digit(text::decimal(n as nat)[0]));
}

proof fn lemma_trimmed_start(s: Seq<char>)
    ensures
        text::trimmed_start(s).len() > 0 ==> !text::is_white_space(text::trimmed_start(s).first()),
    decreases s.len(),
{
    if s.len() > 0 && text::is_white_space(s.first()) {
        lemma_trimmed_start(s.drop_first());
    }
}

proof fn lemma_trimmed_end(s: Seq<char>)
    ensures
        text::trimmed_end(s).len() > 0 ==> !text::is_white_space(text::trimmed_end(s).last()),
        text::trimmed_end(s).is_prefix_of(s),
    decreases s.len(),
{
    if s.len() > 0 && text::is_white_space(s.last()) {
        lemma_trimmed_end(s.drop_last());
    }
}

/// A trimmed text neither starts nor ends with white space, and trimming it
/// again changes nothing.
pub proof fn law_trimmed_text_stays(s: Seq<char>)
    ensures
        text::trimmed(s).len() > 0 ==> !text::is_white_space(text::trimmed(s).first())
            && !text::is_white_space(text::trimmed(s).last()),
        text::trimmed(text::trimmed(s)) == text::trimmed(s),
{
    lemma_trimmed_start(s);
    lemma_trimmed_end(text::trimmed_start(s));
    let t = text::trimmed(s);
    if t.len() > 0 {
        assert(t.first() == text::trimmed_start(s).first());
    }
}

/// A text that does not hold a pattern is left alone by replacing it.
pub proof fn law_replacing_nothing_changes_nothing(
    s: Seq<char>,
    pattern: Seq<char>,
    with: Seq<char>,
)
    requires
        !text::occurs(s, pattern),
    ensures
        text::replaced(s, pattern, with) == s,
    decreases s.len(),
{
    if pattern.len() > 0 && s.len() >= pattern.len() {
        assert(s.take(pattern.len() as int) == s.subrange(0, pattern.len() as int));
        assert(!text::occurs_at(s, pattern, 0));
        let rest = s.skip(1);
        assert forall|at: int| !text::occurs_at(rest, pattern, at) by {
            if text::occurs_at(rest, pattern, at) {
                assert(s.subrange(at + 1, at + 1 + pattern.len()) == rest.subrange(
                    at,
                    at + pattern.len(),
                ));
                assert(text::occurs_at(s, pattern, at + 1));
            }
        }
        law_replacing_nothing_changes_nothing(rest, pattern, with);
        assert(seq![s[0]] + rest == s);
    }
}

proof fn lemma_occurs_in_sum(before: Seq<char>, middle: Seq<char>, after: Seq<char>)
    ensures
        text::occurs(before + middle + after, middle),
{
    let whole = before + middle + after;
    assert(whole.subrange(before.len() as int, (before.len() + middle.len()) as int) == middle);
    assert(text::occurs_at(whole, middle, before.len() as int));
}

proof fn lemma_replacement_occurs(s: Seq<char>, pattern: Seq<char>, with: Seq<char>)
    requires
        pattern.len() > 0,
        text::occurs(s, pattern),
    ensures
        text::occurs(text::replaced(s, pattern, with), with),
    decreases s.len(),
{
    let at = choose|at: int| text::occurs_at(s, pattern, at);
    if s.take(pattern.len() as int) == pattern {
        let rest = text::replaced(s.skip(pattern.len() as int), pattern, with);
        lemma_occurs_in_sum(Seq::empty(), with, rest);
        assert(Seq::<char>::empty() + with + rest == with + rest);
    } else {
        assert(s.take(pattern.len() as int) == s.subrange(0, pattern.len() as int));
        assert(at > 0);
        let rest = s.skip(1);
        assert(rest.subrange(at - 1, at - 1 + pattern.len()) == s.subrange(
            at,
            at + pattern.len(),
        ));
        assert(text::occurs_at(rest, pattern, at - 1));
        lemma_replacement_occurs(rest, pattern, with);
        let tail = text::replaced(rest, pattern, with);
        let place = choose|place: int| text::occurs_at(tail, with, place);
        let whole = seq![s[0]] + tail;
        assert(whole.subrange(place + 1, place + 1 + with.len()) == tail.subrange(
            place,
            place + with.len(),
        ));
        assert(text::occurs_at(whole, with, place + 1));
    }
}

/// Whatever the proxy, the address behind it holds the address that was asked for.
pub proof fn law_proxied_address_holds_the_address(prefix: Seq<char>, url: Seq<char>)
    ensures
        text::occurs(config::proxied(prefix, url), url),
{
    reveal_strlit("{url}");
    if text::occurs(prefix, config::URL_PLACEHOLDER@) {
        lemma_replacement_occurs(prefix, config::URL_PLACEHOLDER@, url);
    } else {
        let before = text::without_trailing(prefix, '/') + "/"@;
        lemma_occurs_in_sum(before, url, Seq::empty());
        assert(before + url + Seq::<char>::empty() == before + url);
    }
}

/// The modpack is fetched from an address that holds that of the modpack.
pub proof fn law_source_holds_the_modpack_address(request: DownloadConfig)
    ensures
        request.source() matches Ok(url) ==> text::occurs(url, config::MODPACK_URL@),
{
    let url = config::MODPACK_URL@;
    match request.proxy_mode {
        ProxyMode::Direct => {
            lemma_occurs_in_sum(Seq::empty(), url, Seq::empty());
            assert(Seq::<char>::empty() + url + Seq::<char>::empty() == url);
        },
        ProxyMode::Preset => {
            law_proxied_address_holds_the_address(config::PRESET_PROXY_PREFIX@, url);
        },
        ProxyMode::Custom => {
            law_proxied_address_holds_the_address(text::trimmed(request.custom_proxy@), url);
        },
    }
}

/// A slash at the end of a proxy address that marks no place makes no difference.
pub proof fn law_trailing_slash_makes_no_difference(prefix: Seq<char>, url: Seq<char>)
    requires
        !text::occurs(prefix, config::URL_PLACEHOLDER@),
    ensures
        config::proxied(prefix.push('/'), url) == config::proxied(prefix, url),
{
    reveal_strlit("{url}");
    let pattern = config::URL_PLACEHOLDER@;
    let longer = prefix.push('/');
    assert forall|at: int| !text::occurs_at(longer, pattern, at) by {
        if text::occurs_at(longer, pattern, at) {
            let found = longer.subrange(at, at + pattern.len());
            assert(found[4] == '}');
            assert(longer[at + 4] == '}');
            assert(at + 4 < prefix.len());
            assert(prefix.subrange(at, at + pattern.len()) == found);
            assert(text::occurs_at(prefix, pattern, at));
        }
    }
    assert(longer.drop_last() == prefix);
}

proof fn lemma_after_last(lead: Seq<char>, tail: Seq<char>, c: char)
    requires
        forall|i: int| 0 <= i < tail.len() ==> #[trigger] tail[i] != c,
    ensures
        text::after_last(lead.push(c) + tail, c) == tail,
    decreases tail.len(),
{
    let whole = lead.push(c) + tail;
    if tail.len() > 0 {
        assert(whole.drop_last() == lead.push(c) + tail.drop_last());
        lemma_after_last(lead, tail.drop_last(), c);
        assert(tail.drop_last().push(tail.last()) == tail);
        assert(whole.last() == tail[tail.len() - 1]);
    } else {
        assert(whole.last() == c);
    }
}

/// The total of a content range is the number after its last slash.
pub proof fn law_content_range_tells_the_total(value: Vec<u8>, lead: Seq<char>, total: u64)
    requires
        response::header_chars(value@) == Some(lead.push('/') + text::decimal(total as nat)),
    ensures
        response::range_total(Some(value)) == Some(total),
{
    let digits = text::decimal(total as nat);
    lemma_decimal_is_digits(total as nat);
    assert forall|i: int| 0 <= i < digits.len() implies #[trigger] digits[i] != '/' by {
        assert(text::is_digit(digits[i]));
    }
    lemma_after_last(lead, digits, '/');
    law_parsing_undoes_writing(total);
}

/// A content range that ends with a star tells no total.
pub proof fn law_star_tells_no_total(value: Vec<u8>, lead: Seq<char>)
    requires
        response::header_chars(value@) == Some(lead.push('/').push('*')),
    ensures
        response::range_total(Some(value)) is None,
{
    let tail = seq!['*'];
    assert(lead.push('/').push('*') == lead.push('/') + tail);
    lemma_after_last(lead, tail, '/');
    assert(!text::is_digit(text::without_plus(tail)[0]));
}

/// A file name that is accepted is not empty and has no white space around it.
pub proof fn law_accepted_file_name_is_trimmed(
    output_filename: Option<String>,
    proxy_mode: Option<String>,
)
    ensures
        DownloadConfig::checked(output_filename, proxy_mode) matches Ok((name, _)) ==> {
            &&& name.len() > 0
            &&& text::trimmed(name) == name
        },
{
    law_trimmed_text_stays(config::given_or(output_filename, paths::DEFAULT_FILENAME@));
}

/// The states of an installation from its start, the events between them, and
/// what the user was told at each.
pub open spec fn is_installation(
    states: Seq<Install>,
    events: Seq<Event>,
    told: Seq<Seq<EventView>>,
) -> bool {
    &&& states.len() == events.len() + 1
    &&& told.len() == events.len()
    &&& states[0].stage@ is CreatingDir
    &&& forall|i: int| 0 <= i < events.len() ==> #[trigger] is_install_step(states, events, told, i)
}

/// One step of an installation.
pub open spec fn is_install_step(
    states: Seq<Install>,
    events: Seq<Event>,
    told: Seq<Seq<EventView>>,
    i: int,
) -> bool {
    &&& states[i].takes(events[i])
    &&& states[i].leads_to(events[i], states[i + 1].stage@, told[i])
    &&& states[i + 1].config == states[i].config
}

/// The address is the one that a configuration asks for.
pub open spec fn is_source(request: DownloadConfig, url: Seq<char>) -> bool {
    request.source() matches Ok(source) && source == url
}

/// The address and the target are those that the configuration asks for, and
/// the incomplete file is the one for that target.
spec fn is_configured(state: Install) -> bool {
    let dir = state.config.output_dir@;
    let name = state.config.output_filename@;
    match state.stage@ {
        StageView::CreatingDir => true,
        StageView::BuildingClient { url, target } => {
            &&& is_source(state.config, url)
            &&& paths::is_joined(dir, name, target)
        },
        StageView::Downloading { downloader } => {
            &&& is_source(state.config, downloader.url)
            &&& paths::is_joined(dir, name, downloader.target)
            &&& paths::is_partial_path(downloader.target, downloader.temp)
        },
        StageView::Finished { outcome: Ok(path) } => paths::is_joined(dir, name, path),
        StageView::Finished { outcome: Err(_) } => true,
    }
}

proof fn lemma_installation_is_configured(
    states: Seq<Install>,
    events: Seq<Event>,
    told: Seq<Seq<EventView>>,
    at: int,
)
    requires
        is_installation(states, events, told),
        0 <= at <= events.len(),
    ensures
        is_configured(states[at]),
        states[at].config == states[0].config,
    decreases at,
{
    if at > 0 {
        lemma_installation_is_configured(states, events, told, at - 1);
        assert(is_install_step(states, events, told, at - 1));
    }
}

/// An installation that succeeds gives the path that the configuration asks for.
pub proof fn law_result_is_the_configured_path(
    states: Seq<Install>,
    events: Seq<Event>,
    told: Seq<Seq<EventView>>,
)
    requires
        is_installation(states, events, told),
    ensures
        states.last().stage@ matches StageView::Finished { outcome: Ok(path) } ==> paths::is_joined(
            states[0].config.output_dir@,
            states[0].config.output_filename@,
            path,
        ),
{
    lemma_installation_is_configured(states, events, told, events.len() as int);
}

/// Every request of an installation goes to the address that the configuration
/// asks for, which holds that of the modpack.
pub proof fn law_requests_go_to_the_configured_address(
    states: Seq<Install>,
    events: Seq<Event>,
    told: Seq<Seq<EventView>>,
    at: int,
)
    requires
        is_installation(states, events, told),
        0 <= at <= events.len(),
    ensures
        match states[at].next_action() {
            ActionView::Probe { url } => {
                &&& is_source(states[0].config, url)
                &&& text::occurs(url, config::MODPACK_URL@)
            },
            ActionView::Send { url, .. } => {
                &&& is_source(states[0].config, url)
                &&& text::occurs(url, config::MODPACK_URL@)
            },
            _ => true,
        },
{
    lemma_installation_is_configured(states, events, told, at);
    law_source_holds_the_modpack_address(states[0].config);
}

/// The incomplete file of an installation is the one for the target, and
/// another file than that.
pub proof fn law_incomplete_file_is_another_file(
    states: Seq<Install>,
    events: Seq<Event>,
    told: Seq<Seq<EventView>>,
    at: int,
)
    requires
        is_installation(states, events, told),
        0 <= at <= events.len(),
    ensures
        states[at].stage@ matches StageView::Downloading { downloader } ==> {
            &&& paths::is_partial_path(downloader.target, downloader.temp)
            &&& downloader.temp != downloader.target
        },
{
    lemma_installation_is_configured(states, events, told, at);
}

} // verus!
