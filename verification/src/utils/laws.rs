//! What the small things promise, of the functions that keep the promise: texts, lists of ids,
//! settings and times.

use crate::setup::{allowed_games_types, http_public_address, non_empty, ws_public_address};
use crate::text::{
    ascii_lower, begins_with, blank, chars_of, contains, decimal, hex, pieces, push_decimal,
    push_decimal_signed, push_decimal_wide, push_hex, push_truth, replace, split, stands_at,
    text_of, texts, trim, trimmed,
};
use crate::utils::config::{
    config_from_str, config_size_from_str, config_string, configured, digits_value,
};
use crate::utils::ids::{holds, ids_of, ids_of_without};
use crate::utils::time::{
    clock_reading, duration_between, duration_since_timestamp, duration_since_unix_epoch, elapsed,
    get_timestamp, measured, read_off, stood_at, timestamp_at, told, Duration, IntervalTimer,
    Timestamp,
};
use std::collections::HashMap;
use std::time::Instant;
use vstd::prelude::*;

verus! {

/// A text without the separator is one piece.
pub proof fn lemma_pieces_one(s: Seq<char>, sep: char)
    requires
        !s.contains(sep),
    ensures
        pieces(s, sep) == seq![s],
    decreases s.len(),
{
    if s.len() > 0 {
        let rest = s.drop_last();
        assert(s.last() != sep) by {
            assert(s.contains(s[s.len() - 1]));
        }
        assert forall|i: int| 0 <= i < rest.len() implies rest[i] != sep by {
            assert(s.contains(s[i]));
        }
        lemma_pieces_one(rest, sep);
        assert(rest.push(s.last()) =~= s);
        assert(pieces(s, sep) =~= seq![s]);
    }
}

/// What stands in front of the first separator is the first piece, and what stands behind it
/// makes up the others.
pub proof fn lemma_pieces_join(first: Seq<char>, rest: Seq<char>, sep: char)
    requires
        !first.contains(sep),
    ensures
        pieces(first + seq![sep] + rest, sep) == seq![first] + pieces(rest, sep),
    decreases rest.len(),
{
    let s = first + seq![sep] + rest;
    crate::text::lemma_pieces_nonempty(rest, sep);
    if rest.len() == 0 {
        lemma_pieces_one(first, sep);
        assert(s.drop_last() =~= first);
        assert(rest =~= Seq::<char>::empty());
        assert(pieces(s, sep) =~= seq![first] + pieces(rest, sep));
    } else {
        let fewer = rest.drop_last();
        lemma_pieces_join(first, fewer, sep);
        crate::text::lemma_pieces_nonempty(fewer, sep);
        assert(s.drop_last() =~= first + seq![sep] + fewer);
        assert(s.last() == rest.last());
        let p = pieces(fewer, sep);
        assert((seq![first] + p).drop_last() =~= seq![first] + p.drop_last());
        assert((seq![first] + p).last() == p.last());
        assert(pieces(s, sep) =~= seq![first] + pieces(rest, sep));
    }
}

/// A text is split at each separator.
pub proof fn texts_are_split(
    first: Seq<char>,
    sep: char,
    alone: &str,
    one: Vec<String>,
    rest: &str,
    others: Vec<String>,
    whole: &str,
    r: Vec<String>,
)
    requires
        !first.contains(sep),
        alone@ == first,
        call_ensures(split, (alone, sep), one),
        call_ensures(split, (rest, sep), others),
        whole@ == first + seq![sep] + rest@,
        call_ensures(split, (whole, sep), r),
    ensures
        one@.len() == 1,
        one@[0]@ == first,
        r@.len() == others@.len() + 1,
        r@[0]@ == first,
        forall|i: int| 0 <= i < others@.len() ==> (#[trigger] others@[i])@ == r@[i + 1]@,
{
    lemma_pieces_one(first, sep);
    lemma_pieces_join(first, rest@, sep);
    assert(texts(one@)[0] == one@[0]@);
    assert(texts(one@).len() == one@.len());
    assert(texts(r@).len() == r@.len() && texts(others@).len() == others@.len());
    assert(texts(r@)[0] == r@[0]@);
    assert forall|i: int| 0 <= i < others@.len() implies (#[trigger] others@[i])@ == r@[i + 1]@ by {
        assert(texts(others@)[i] == others@[i]@);
        assert(texts(r@)[i + 1] == r@[i + 1]@);
    }
}

/// Whether a text is made of spaces and tabs alone.
pub open spec fn is_blank(s: Seq<char>) -> bool {
    forall|i: int| 0 <= i < s.len() ==> #[trigger] s[i] == ' ' || s[i] == '\t'
}

/// Whether neither end of a text is a space or a tab.
pub open spec fn is_trim(s: Seq<char>) -> bool {
    s.len() > 0 ==> s[0] != ' ' && s[0] != '\t' && s.last() != ' ' && s.last() != '\t'
}

/// Blanks around a text are trimmed off, and nothing else.
pub proof fn lemma_trimmed(lead: Seq<char>, s: Seq<char>, tail: Seq<char>)
    requires
        is_blank(lead),
        is_trim(s),
        is_blank(tail),
    ensures
        trimmed(lead + s + tail) == s,
    decreases lead.len() + tail.len(),
{
    let all = lead + s + tail;
    if lead.len() > 0 {
        assert(blank(all[0]));
        assert(all.drop_first() =~= lead.drop_first() + s + tail);
        lemma_trimmed(lead.drop_first(), s, tail);
    } else if s.len() == 0 {
        if tail.len() > 0 {
            assert(all[0] == tail[0]);
            assert(blank(all[0]));
            assert(all.drop_first() =~= lead + s + tail.drop_first());
            lemma_trimmed(lead, s, tail.drop_first());
        } else {
            assert(all =~= s);
        }
    } else if tail.len() > 0 {
        assert(all[0] == s[0]);
        assert(all.last() == tail.last());
        assert(blank(all.last()));
        assert(all.drop_last() =~= lead + s + tail.drop_last());
        lemma_trimmed(lead, s, tail.drop_last());
    } else {
        assert(all =~= s);
    }
}

/// Spaces and tabs around a text are trimmed off, and nothing else.
pub proof fn texts_are_trimmed(
    lead: Seq<char>,
    s: Seq<char>,
    tail: Seq<char>,
    text: &str,
    r: String,
)
    requires
        is_blank(lead),
        is_trim(s),
        is_blank(tail),
        text@ == lead + s + tail,
        call_ensures(trim, (text,), r),
    ensures
        r@ == s,
{
    lemma_trimmed(lead, s, tail);
}

/// What was read is read character by character, and nothing else is made of it.
pub proof fn characters_are_kept(
    s: &str,
    v: Vec<char>,
    from: usize,
    to: usize,
    part: String,
    low: String,
)
    requires
        call_ensures(chars_of, (s,), v),
        from <= to <= s@.len(),
        call_ensures(text_of, (&v, from, to), part),
        call_ensures(ascii_lower, (s,), low),
    ensures
        v@ == s@,
        part@ == s@.subrange(from as int, to as int),
        low@.len() == s@.len(),
        forall|i: int|
            0 <= i < s@.len() ==> (#[trigger] low@[i]) as int == if 65 <= s@[i] as int <= 90 {
                s@[i] as int + 32
            } else {
                s@[i] as int
            },
{
}

/// What a text is searched for is found where it stands.
pub proof fn texts_are_searched(s: &str, sub: &str, begins: bool, found: bool)
    requires
        call_ensures(begins_with, (s, sub), begins),
        call_ensures(contains, (s, sub), found),
    ensures
        begins <==> exists|tail: Seq<char>| s@ == #[trigger] (sub@ + tail),
        found <==> exists|lead: Seq<char>, tail: Seq<char>| s@ == #[trigger] (lead + sub@ + tail),
{
    if begins {
        let tail = s@.skip(sub@.len() as int);
        assert(s@ =~= sub@ + tail);
    }
    if exists|tail: Seq<char>| s@ == #[trigger] (sub@ + tail) {
        let tail = choose|tail: Seq<char>| s@ == #[trigger] (sub@ + tail);
        assert(s@.subrange(0, sub@.len() as int) =~= sub@);
    }
    if found {
        let at = choose|at: int| stands_at(s@, sub@, at);
        let lead = s@.take(at);
        let tail = s@.skip(at + sub@.len());
        assert(s@ =~= lead + s@.subrange(at, at + sub@.len()) + tail);
        assert(s@ == lead + sub@ + tail);
    }
    if exists|lead: Seq<char>, tail: Seq<char>| s@ == #[trigger] (lead + sub@ + tail) {
        let (lead, tail) = choose|lead: Seq<char>, tail: Seq<char>|
            s@ == #[trigger] (lead + sub@ + tail);
        assert(s@.subrange(lead.len() as int, (lead.len() + sub@.len()) as int) =~= sub@);
        assert(stands_at(s@, sub@, lead.len() as int));
    }
}

/// What is searched for is replaced from left to right, and the rest is kept.
pub proof fn texts_are_replaced(
    s: &str,
    from: &str,
    to: &str,
    r: String,
    rest: &str,
    r_rest: String,
    begins: bool,
)
    requires
        from@.len() > 0,
        call_ensures(replace, (s, from, to), r),
        call_ensures(replace, (rest, from, to), r_rest),
        call_ensures(begins_with, (s, from), begins),
        begins ==> s@ == from@ + rest@,
        !begins && s@.len() > 0 ==> s@ == seq![s@[0]] + rest@,
    ensures
        s@.len() == 0 ==> r@.len() == 0,
        begins ==> r@ == to@ + r_rest@,
        !begins && s@.len() > 0 ==> r@ == seq![s@[0]] + r_rest@,
{
    if s@.len() > 0 {
        if begins {
            assert(s@.skip(from@.len() as int) =~= rest@);
        } else {
            assert(s@.skip(1) =~= rest@);
        }
    }
}

/// The number that digits stand for.
pub open spec fn numeral(s: Seq<char>) -> int {
    s.fold_left(0int, |n: int, c: char| n * 10 + (c as int - 48))
}

/// Whether a text is a number in decimal notation.
pub open spec fn is_numeral(s: Seq<char>) -> bool {
    s.len() > 0 && forall|i: int| 0 <= i < s.len() ==> 48 <= (#[trigger] s[i]) as int <= 57
}

proof fn lemma_numeral(s: Seq<char>)
    requires
        forall|i: int| 0 <= i < s.len() ==> 48 <= (#[trigger] s[i]) as int <= 57,
    ensures
        numeral(s) == digits_value(s),
    decreases s.len(),
{
    if s.len() > 0 {
        assert forall|i: int| 0 <= i < s.drop_last().len() implies 48 <= (#[trigger] s.drop_last()[i])
            as int <= 57 by {
            assert(s.drop_last()[i] == s[i]);
        }
        lemma_numeral(s.drop_last());
        assert(s[s.len() - 1] == s.last());
    }
}

proof fn lemma_configured(text: String, max: nat, default: nat)
    ensures
        ({
            let s = text@;
            let digits = if s.len() > 0 && s[0] == '+' {
                s.drop_first()
            } else {
                s
            };
            configured(Some(text), max, default) == if is_numeral(digits) && numeral(digits) <= max {
                numeral(digits)
            } else {
                default as int
            }
        }),
{
    let s = text@;
    let digits = if s.len() > 0 && s[0] == '+' {
        s.drop_first()
    } else {
        s
    };
    assert(digits == crate::utils::config::digits_of(s));
    if is_numeral(digits) {
        lemma_numeral(digits);
        assert forall|i: int| 0 <= i < digits.len() implies crate::utils::config::is_digit(
            #[trigger] digits[i],
        ) by {
            assert(48 <= digits[i] as int <= 57);
        }
    } else if digits.len() > 0 {
        let i = choose|i: int| 0 <= i < digits.len() && !(48 <= (#[trigger] digits[i]) as int <= 57);
        assert(!crate::utils::config::is_digit(digits[i]));
    }
}

/// A setting is what was read, and its default where nothing was. A number is what its digits
/// stand for, with a plus sign in front of them or without, and its default where the text is no
/// number or the number is too large.
pub proof fn settings_are_read(
    text: Option<String>,
    default: &str,
    string: String,
    number_default: u64,
    number: u64,
    size_default: usize,
    size: usize,
)
    requires
        call_ensures(config_string, (text, default), string),
        call_ensures(config_from_str, (text, number_default), number),
        call_ensures(config_size_from_str, (text, size_default), size),
    ensures
        text is None ==> string@ == default@ && number == number_default && size == size_default,
        text matches Some(read) ==> {
            let digits = if read@.len() > 0 && read@[0] == '+' {
                read@.drop_first()
            } else {
                read@
            };
            &&& string@ == read@
            &&& is_numeral(digits) && numeral(digits) <= u64::MAX ==> number == numeral(digits)
            &&& !is_numeral(digits) || numeral(digits) > u64::MAX ==> number == number_default
            &&& is_numeral(digits) && numeral(digits) <= usize::MAX ==> size == numeral(digits)
            &&& !is_numeral(digits) || numeral(digits) > usize::MAX ==> size == size_default
        },
{
    if let Some(read) = text {
        lemma_configured(read, u64::MAX as nat, number_default as nat);
        lemma_configured(read, usize::MAX as nat, size_default as nat);
    }
}

proof fn lemma_non_empty(first: Seq<char>, rest: Seq<Seq<char>>)
    ensures
        non_empty(seq![first] + rest) == if first.len() > 0 {
            seq![first] + non_empty(rest)
        } else {
            non_empty(rest)
        },
    decreases rest.len(),
{
    let all = seq![first] + rest;
    if rest.len() == 0 {
        assert(all.drop_last() =~= Seq::empty());
        assert(all.last() == first);
        assert(non_empty(all.drop_last()) =~= Seq::empty());
        assert(non_empty(rest) =~= Seq::empty());
        assert(non_empty(all) =~= if first.len() > 0 {
            seq![first] + non_empty(rest)
        } else {
            non_empty(rest)
        });
    } else {
        lemma_non_empty(first, rest.drop_last());
        assert(all.drop_last() =~= seq![first] + rest.drop_last());
        assert(all.last() == rest.last());
        assert(non_empty(all) =~= if first.len() > 0 {
            seq![first] + non_empty(rest)
        } else {
            non_empty(rest)
        });
    }
}

/// The games that are allowed are named with commas between them, and no game has an empty name.
pub proof fn allowed_games_are_named(
    first: String,
    rest: String,
    whole: String,
    nothing: Vec<String>,
    one: Vec<String>,
    others: Vec<String>,
    all: Vec<String>,
)
    requires
        !first@.contains(','),
        whole@ == first@ + seq![','] + rest@,
        call_ensures(allowed_games_types, (None::<String>,), nothing),
        call_ensures(allowed_games_types, (Some(first),), one),
        call_ensures(allowed_games_types, (Some(rest),), others),
        call_ensures(allowed_games_types, (Some(whole),), all),
    ensures
        nothing@.len() == 0,
        first@.len() == 0 ==> one@.len() == 0,
        first@.len() > 0 ==> one@.len() == 1 && one@[0]@ == first@,
        all@.len() == one@.len() + others@.len(),
        forall|i: int| 0 <= i < one@.len() ==> (#[trigger] one@[i])@ == all@[i]@,
        forall|i: int|
            0 <= i < others@.len() ==> (#[trigger] others@[i])@ == all@[one@.len() + i]@,
{
    lemma_pieces_one(first@, ',');
    lemma_pieces_join(first@, rest@, ',');
    lemma_non_empty(first@, Seq::empty());
    lemma_non_empty(first@, pieces(rest@, ','));
    assert(seq![first@] + Seq::<Seq<char>>::empty() =~= seq![first@]);
    assert(non_empty(Seq::empty()) =~= Seq::empty());
    assert(texts(nothing@).len() == nothing@.len());
    assert(texts(one@).len() == one@.len());
    assert(texts(others@).len() == others@.len());
    assert(texts(all@).len() == all@.len());
    assert forall|i: int| 0 <= i < one@.len() implies (#[trigger] one@[i])@ == all@[i]@ by {
        assert(texts(one@)[i] == one@[i]@);
        assert(texts(all@)[i] == all@[i]@);
    }
    assert forall|i: int| 0 <= i < others@.len() implies (#[trigger] others@[i])@ == all@[
        one@.len() + i
    ]@ by {
        assert(texts(others@)[i] == others@[i]@);
        assert(texts(all@)[one@.len() + i] == all@[one@.len() + i]@);
    }
    if first@.len() > 0 {
        assert(texts(one@)[0] == one@[0]@);
    }
}

/// The public address is the one that was read, or else the one that is listened at. It keeps its
/// scheme, and one without a scheme is an HTTP address.
pub proof fn public_addresses_have_a_scheme(
    read: Option<String>,
    bind_address: &str,
    r: String,
    begins: bool,
    schemed: bool,
    address: &str,
)
    requires
        call_ensures(http_public_address, (read, bind_address), r),
        address@ == match read {
            Some(text) => text@,
            None => bind_address@,
        },
        call_ensures(begins_with, (address, "http"), begins),
        call_ensures(contains, (address, "://"), schemed),
    ensures
        begins || schemed ==> r@ == address@,
        !begins && !schemed ==> r@ == "http://"@ + address@,
{
}

/// WebSocket connections are taken at the address that was read, or else at the HTTP address with
/// the other scheme.
pub proof fn websocket_address_follows_http(
    read: Option<String>,
    http_address: &str,
    r: String,
    other: String,
)
    requires
        call_ensures(ws_public_address, (read, http_address), r),
        call_ensures(replace, (http_address, "http", "ws"), other),
    ensures
        read is Some ==> r@ == read->0@,
        read is None ==> r@ == other@,
{
}

/// A list of ids names each id of the map that is not left out, once.
pub proof fn ids_are_listed_once<V>(
    m: HashMap<u64, V>,
    without: Vec<u64>,
    all: Vec<u64>,
    some: Vec<u64>,
    id: u64,
    held: bool,
)
    requires
        call_ensures(ids_of::<V>, (&m,), all),
        call_ensures(ids_of_without::<V>, (&m, &without), some),
        call_ensures(holds, (&without, id), held),
    ensures
        all@.no_duplicates(),
        some@.no_duplicates(),
        all@.contains(id) <==> m@.contains_key(id),
        held <==> exists|i: int| 0 <= i < without@.len() && #[trigger] without@[i] == id,
        some@.contains(id) <==> m@.contains_key(id) && !held,
{
    assert(all@.contains(id) <==> all@.to_set().contains(id));
    assert(some@.contains(id) <==> some@.to_set().contains(id));
    assert(without@.contains(id) <==> without@.to_set().contains(id));
}

/// Spans are counted in nanoseconds.
pub proof fn spans_are_counted(
    secs: u64,
    nanos: u32,
    millis: u64,
    zero: Duration,
    span: Duration,
    other: Duration,
    left: Duration,
    empty: bool,
    longer: bool,
    whole: u128,
)
    requires
        call_ensures(Duration::zero, (), zero),
        call_ensures(Duration::new, (secs, nanos), span),
        call_ensures(Duration::from_millis, (millis,), other),
        call_ensures(Duration::saturating_sub, (span, other), left),
        call_ensures(Duration::is_zero, (&left,), empty),
        call_ensures(Duration::exceeds, (&span, &other), longer),
        call_ensures(Duration::as_millis, (&span,), whole),
    ensures
        zero.nanos == 0,
        span.nanos == secs * 1_000_000_000 + nanos,
        other.nanos == millis * 1_000_000,
        span.nanos >= other.nanos ==> left.nanos == span.nanos - other.nanos,
        span.nanos < other.nanos ==> left.nanos == 0,
        empty <==> left.nanos == 0,
        longer <==> span.nanos > other.nanos,
        whole * 1_000_000 <= span.nanos < (whole + 1) * 1_000_000,
{
}

/// A time stamp has the seconds of the clock and the nanoseconds beyond them. The time since then
/// is the difference, and none where the clock was set back behind it.
pub proof fn stamps_are_of_their_time(
    then: Duration,
    stamp: Timestamp,
    now: Option<Duration>,
    since_then: Duration,
)
    requires
        clock_reading(Some(then)),
        call_ensures(timestamp_at, (Some(then),), stamp),
        call_ensures(duration_between, (now, &stamp), since_then),
    ensures
        stamp.0 * 1_000_000_000 + stamp.1 == then.nanos,
        stamp.1 < 1_000_000_000,
        now is Some && now->0.nanos >= then.nanos ==> since_then.nanos == now->0.nanos - then.nanos,
        now is None || now->0.nanos < then.nanos ==> since_then.nanos == 0,
{
    let n = then.nanos as nat;
    assert(n / 1_000_000_000 <= u64::MAX) by (nonlinear_arith)
        requires
            n < 0x1_0000_0000_0000_0000 * 1_000_000_000,
    ;
    assert(stamp.0 == n / 1_000_000_000 && stamp.1 == n % 1_000_000_000);
}

/// A clock that stands before the epoch gives the stamp zero.
pub proof fn no_time_before_the_epoch(stamp: Timestamp)
    requires
        call_ensures(timestamp_at, (None::<Duration>,), stamp),
    ensures
        stamp.0 == 0,
        stamp.1 == 0,
{
}

/// The clock that is read gives the stamps and the spans.
pub proof fn the_clock_is_read(
    read: Option<Duration>,
    stamp: Timestamp,
    since_stamp: Duration,
    from: Instant,
    span: Duration,
)
    requires
        call_ensures(duration_since_unix_epoch, (), read),
        call_ensures(get_timestamp, (), stamp),
        call_ensures(duration_since_timestamp, (&stamp,), since_stamp),
        call_ensures(elapsed, (&from,), span),
    ensures
        exists|clock: Option<(u64, u32)>| #[trigger]
            read_off(clock) && (clock is None ==> read is None) && (clock is Some ==> read is Some
                && read->0.nanos == (clock->0).0 * 1_000_000_000 + (clock->0).1),
        exists|clock: Option<(u64, u32)>| #[trigger]
            read_off(clock) && (clock is Some ==> stamp == clock->0) && (clock is None ==> stamp.0 == 0
                && stamp.1 == 0),
        exists|clock: Option<(u64, u32)>| #[trigger]
            read_off(clock) && {
                let past = stamp.0 * 1_000_000_000 + stamp.1;
                let present = if clock is Some {
                    (clock->0).0 * 1_000_000_000 + (clock->0).1
                } else {
                    0
                };
                since_stamp.nanos == if present >= past {
                    present - past
                } else {
                    0
                }
            },
        measured(from, span),
{
    let clock = choose|clock: Option<(u64, u32)>| #[trigger]
        read_off(clock) && match clock {
            Some(t) => t.1 < 1_000_000_000 && (read matches Some(d) && d@ == t.0 * 1_000_000_000
                + t.1),
            None => read is None,
        };
    assert(read_off(clock));
    let stamped = choose|clock: Option<(u64, u32)>| #[trigger]
        read_off(clock) && stamp == match clock {
            Some(stamp) => stamp,
            None => (0u64, 0u32),
        };
    assert(read_off(stamped));
    let now = choose|now: Option<Duration>| #[trigger]
        told(now) && since_stamp@ == crate::utils::time::since(now, stamp);
    let later = choose|clock: Option<(u64, u32)>| #[trigger]
        read_off(clock) && match clock {
            Some(t) => t.1 < 1_000_000_000 && (now matches Some(d) && d@ == t.0 * 1_000_000_000
                + t.1),
            None => now is None,
        };
    assert(read_off(later));
}

/// A timer ticks at the first chance, then whenever more than its interval has passed since it
/// ticked last, and never without an interval. A look at which it does not tick changes nothing.
pub proof fn timers_tick_once_per_interval(
    duration: Duration,
    fresh: IntervalTimer,
    first: Duration,
    r1: bool,
    after: IntervalTimer,
    second: Duration,
    r2: bool,
    last: IntervalTimer,
    r_fresh: bool,
    other: IntervalTimer,
)
    requires
        call_ensures(IntervalTimer::new, (duration,), fresh),
        exists|t: &mut IntervalTimer| #[trigger]
            call_ensures(IntervalTimer::tick_at, (t, first), r1) && *t == fresh && *final(t) == after,
        exists|t: &mut IntervalTimer| #[trigger]
            call_ensures(IntervalTimer::tick_at, (t, second), r2) && *t == after && *final(t) == last,
        exists|t: &mut IntervalTimer| #[trigger]
            call_ensures(IntervalTimer::tick_at, (t, second), r_fresh) && *t == fresh && *final(t)
                == other,
    ensures
        fresh.duration == duration,
        r1 <==> duration.nanos > 0 && first.nanos > 0,
        r1 ==> (r2 <==> second.nanos - first.nanos > duration.nanos),
        !r1 ==> r2 == r_fresh,
        last.duration == duration,
        last.started == fresh.started,
        stood_at(fresh.started),
{
}

/// A timer goes by the clock, from when it was created.
pub proof fn timers_go_by_the_clock(before: IntervalTimer, r: bool, after: IntervalTimer)
    requires
        exists|t: &mut IntervalTimer| #[trigger]
            call_ensures(IntervalTimer::tick, (t,), r) && *t == before && *final(t) == after,
    ensures
        exists|now: Duration| #[trigger]
            measured(before.started, now) && {
                let passed = now.nanos - before.last_tick.nanos + before.lead.nanos;
                &&& r <==> before.duration.nanos > 0 && passed > before.duration.nanos
                &&& r ==> after.last_tick.nanos - after.lead.nanos == now.nanos
                &&& !r ==> after.last_tick.nanos - after.lead.nanos == before.last_tick.nanos
                    - before.lead.nanos
            },
        after.duration == before.duration,
        after.started == before.started,
{
    let now = choose|now: Duration| #[trigger]
        measured(before.started, now) && r == before.due(now@) && before.looked_at(now@, after);
    assert(measured(before.started, now));
}

/// Whether a text is the decimal notation of `n`, without leading zeros.
pub open spec fn in_digits(n: int, s: Seq<char>) -> bool {
    is_numeral(s) && numeral(s) == n && (s.len() > 1 ==> s[0] != '0')
}

proof fn lemma_numeral_bound(s: Seq<char>)
    requires
        is_numeral(s),
    ensures
        numeral(s) >= 0,
        s[0] != '0' ==> numeral(s) > 0,
    decreases s.len(),
{
    let rest = s.drop_last();
    assert(48 <= s[s.len() - 1] as int <= 57);
    if s.len() > 1 {
        assert forall|i: int| 0 <= i < rest.len() implies 48 <= (#[trigger] rest[i]) as int <= 57 by {
            assert(rest[i] == s[i]);
        }
        lemma_numeral_bound(rest);
        assert(rest[0] == s[0]);
    } else {
        assert(rest.fold_left(0int, |n: int, c: char| n * 10 + (c as int - 48)) == 0);
    }
}

/// There is one decimal notation of a number.
pub proof fn lemma_in_digits(n: int, s: Seq<char>)
    requires
        in_digits(n, s),
    ensures
        n >= 0,
        s == decimal(n as nat),
    decreases s.len(),
{
    lemma_numeral_bound(s);
    let rest = s.drop_last();
    let d = s.last() as int - 48;
    assert(48 <= s[s.len() - 1] as int <= 57);
    if s.len() > 1 {
        assert forall|i: int| 0 <= i < rest.len() implies 48 <= (#[trigger] rest[i]) as int <= 57 by {
            assert(rest[i] == s[i]);
        }
        assert(rest[0] == s[0]);
        lemma_numeral_bound(rest);
        let m = numeral(rest);
        assert(n == m * 10 + d);
        lemma_in_digits(m, rest);
        assert(n / 10 == m && n % 10 == d);
        assert(rest.push(s.last()) =~= s);
    } else {
        assert(rest.fold_left(0int, |n: int, c: char| n * 10 + (c as int - 48)) == 0);
        assert(n == d);
        assert(s =~= seq![s.last()]);
    }
}

/// Numbers and truth values are appended in their notation, behind what was there.
pub proof fn numbers_are_appended(
    before: String,
    n: u64,
    digits: Seq<char>,
    number: String,
    wide: u128,
    wide_digits: Seq<char>,
    wide_number: String,
    signed: i64,
    signed_digits: Seq<char>,
    signed_number: String,
    b: bool,
    word: String,
)
    requires
        in_digits(n as int, digits),
        exists|s: &mut String| #[trigger]
            call_ensures(push_decimal, (s, n), ()) && *s == before && *final(s) == number,
        in_digits(wide as int, wide_digits),
        exists|s: &mut String| #[trigger]
            call_ensures(push_decimal_wide, (s, wide), ()) && *s == before && *final(s)
                == wide_number,
        in_digits(
            if signed < 0 {
                -signed
            } else {
                signed as int
            },
            signed_digits,
        ),
        exists|s: &mut String| #[trigger]
            call_ensures(push_decimal_signed, (s, signed), ()) && *s == before && *final(s)
                == signed_number,
        exists|s: &mut String| #[trigger]
            call_ensures(push_truth, (s, b), ()) && *s == before && *final(s) == word,
    ensures
        number@ == before@ + digits,
        wide_number@ == before@ + wide_digits,
        signed >= 0 ==> signed_number@ == before@ + signed_digits,
        signed < 0 ==> signed_number@ == before@ + (seq!['-'] + signed_digits),
        b ==> word@ == before@ + "true"@,
        !b ==> word@ == before@ + "false"@,
{
    lemma_in_digits(n as int, digits);
    lemma_in_digits(wide as int, wide_digits);
    lemma_in_digits(
        if signed < 0 {
            -signed
        } else {
            signed as int
        },
        signed_digits,
    );
}

/// What a hexadecimal digit stands for, or -1 for what is none.
pub open spec fn hex_value(c: char) -> int {
    if 48 <= c as int <= 57 {
        c as int - 48
    } else if 65 <= c as int <= 70 {
        c as int - 55
    } else {
        -1
    }
}

/// Whether a text is the hexadecimal notation of `n` in upper case, without leading zeros.
pub open spec fn in_hex(n: int, s: Seq<char>) -> bool {
    &&& s.len() > 0
    &&& forall|i: int| 0 <= i < s.len() ==> hex_value(#[trigger] s[i]) >= 0
    &&& s.fold_left(0int, |n: int, c: char| n * 16 + hex_value(c)) == n
    &&& s.len() > 1 ==> s[0] != '0'
}

proof fn lemma_hex_bound(s: Seq<char>)
    requires
        s.len() > 0,
        forall|i: int| 0 <= i < s.len() ==> hex_value(#[trigger] s[i]) >= 0,
    ensures
        s.fold_left(0int, |n: int, c: char| n * 16 + hex_value(c)) >= 0,
        s[0] != '0' ==> s.fold_left(0int, |n: int, c: char| n * 16 + hex_value(c)) > 0,
    decreases s.len(),
{
    let rest = s.drop_last();
    assert(hex_value(s[s.len() - 1]) >= 0);
    if s.len() > 1 {
        assert forall|i: int| 0 <= i < rest.len() implies hex_value(#[trigger] rest[i]) >= 0 by {
            assert(rest[i] == s[i]);
        }
        lemma_hex_bound(rest);
        assert(rest[0] == s[0]);
    } else {
        assert(rest.fold_left(0int, |n: int, c: char| n * 16 + hex_value(c)) == 0);
    }
}

/// There is one hexadecimal notation of a number.
pub proof fn lemma_in_hex(n: int, s: Seq<char>)
    requires
        in_hex(n, s),
    ensures
        n >= 0,
        s == hex(n as nat),
    decreases s.len(),
{
    lemma_hex_bound(s);
    let rest = s.drop_last();
    let d = hex_value(s.last());
    assert(hex_value(s[s.len() - 1]) >= 0);
    if s.len() > 1 {
        assert forall|i: int| 0 <= i < rest.len() implies hex_value(#[trigger] rest[i]) >= 0 by {
            assert(rest[i] == s[i]);
        }
        assert(rest[0] == s[0]);
        lemma_hex_bound(rest);
        let m = rest.fold_left(0int, |n: int, c: char| n * 16 + hex_value(c));
        assert(n == m * 16 + d);
        lemma_in_hex(m, rest);
        assert(n / 16 == m && n % 16 == d);
        assert(rest.push(s.last()) =~= s);
    } else {
        assert(rest.fold_left(0int, |n: int, c: char| n * 16 + hex_value(c)) == 0);
        assert(n == d);
        assert(s =~= seq![s.last()]);
    }
}

/// A number is appended in hexadecimal notation, behind what was there.
pub proof fn hexadecimals_are_appended(before: String, n: u64, digits: Seq<char>, after: String)
    requires
        in_hex(n as int, digits),
        exists|s: &mut String| #[trigger]
            call_ensures(push_hex, (s, n), ()) && *s == before && *final(s) == after,
    ensures
        after@ == before@ + digits,
{
    lemma_in_hex(n as int, digits);
}

} // verus!
