//! Names that users type, cleaned up.

use vstd::prelude::*;

use crate::text;
use crate::text::{chars_of, string_of, trim};

verus! {

/// A name without line breaks and tabs.
pub open spec fn without_breaks(s: Seq<char>) -> Seq<char>
    decreases s.len(),
{
    if s.len() == 0 {
        Seq::empty()
    } else {
        let rest = without_breaks(s.drop_last());
        if s.last() == '\n' || s.last() == '\r' || s.last() == '\t' {
            rest
        } else {
            rest.push(s.last())
        }
    }
}

/// A name without line breaks, tabs and white space around it.
pub open spec fn clean_name(s: Seq<char>) -> Seq<char> {
    text::trimmed(without_breaks(s))
}

/// Cleans up a display name.
pub fn sanitize_name(s: &str) -> (r: String)
    ensures
        r@ == clean_name(s@),
{
    let chars = chars_of(s);
    let mut kept: Vec<char> = Vec::new();
    let mut i: usize = 0;
    while i < chars.len()
        invariant
            i <= chars@.len(),
            kept@ == without_breaks(chars@.subrange(0, i as int)),
        decreases chars.len() - i,
    {
        let c: char = chars[i];
        if c != '\n' && c != '\r' && c != '\t' {
            kept.push(c);
        }
        i = i + 1;
        assert(chars@.subrange(0, i as int).drop_last() =~= chars@.subrange(0, i - 1));
    }
    assert(chars@.subrange(0, i as int) =~= chars@);
    let joined = string_of(kept.as_slice());
    trim(joined.as_str())
}

/// What a character becomes in the name of a public channel: letters are in
/// lower case, digits and hyphens stay, all others go. Besides the Latin
/// letters, the dotted capital I and the kelvin sign have a lower case that
/// starts with one.
pub open spec fn channel_char(c: char) -> Option<char> {
    if 'a' <= c <= 'z' || '0' <= c <= '9' || c == '-' {
        Some(c)
    } else if 'A' <= c <= 'Z' {
        Some((c as int + 32) as char)
    } else if c == '\u{130}' {
        Some('i')
    } else if c == '\u{212a}' {
        Some('k')
    } else {
        None
    }
}

/// The characters of a text that stay in the name of a public channel.
pub open spec fn channel_chars(s: Seq<char>) -> Seq<char>
    decreases s.len(),
{
    if s.len() == 0 {
        Seq::empty()
    } else {
        let rest = channel_chars(s.drop_last());
        match channel_char(s.last()) {
            Some(c) => rest.push(c),
            None => rest,
        }
    }
}

/// A text without hyphens in front.
pub open spec fn trim_hyphens_front(s: Seq<char>) -> Seq<char>
    decreases s.len(),
{
    if s.len() > 0 && s[0] == '-' {
        trim_hyphens_front(s.drop_first())
    } else {
        s
    }
}

/// A text without hyphens at its end.
pub open spec fn trim_hyphens_back(s: Seq<char>) -> Seq<char>
    decreases s.len(),
{
    if s.len() > 0 && s.last() == '-' {
        trim_hyphens_back(s.drop_last())
    } else {
        s
    }
}

/// The name of a public channel: lower case letters, digits and hyphens, with
/// no hyphen at either end.
pub open spec fn clean_channel_name(s: Seq<char>) -> Seq<char> {
    trim_hyphens_back(trim_hyphens_front(channel_chars(s)))
}

/// Cleans up the name of a public channel.
pub fn sanitize_channel_name(s: &str) -> (r: String)
    ensures
        r@ == clean_channel_name(s@),
{
    let chars = chars_of(s);
    let mut kept: Vec<char> = Vec::new();
    let mut i: usize = 0;
    while i < chars.len()
        invariant
            i <= chars@.len(),
            kept@ == channel_chars(chars@.subrange(0, i as int)),
        decreases chars.len() - i,
    {
        let c: char = chars[i];
        if ('a' <= c && c <= 'z') || ('0' <= c && c <= '9') || c == '-' {
            kept.push(c);
        } else if 'A' <= c && c <= 'Z' {
            kept.push((c as u8 + 32) as char);
        } else if c == '\u{130}' {
            kept.push('i');
        } else if c == '\u{212a}' {
            kept.push('k');
        }
        i = i + 1;
        assert(chars@.subrange(0, i as int).drop_last() =~= chars@.subrange(0, i - 1));
    }
    assert(chars@.subrange(0, i as int) =~= chars@);
    let n: usize = kept.len();
    let mut from: usize = 0;
    assert(kept@.subrange(0, n as int) =~= kept@);
    while from < n && kept[from] == '-'
        invariant
            from <= n == kept@.len(),
            trim_hyphens_front(kept@.subrange(from as int, n as int)) == trim_hyphens_front(kept@),
        decreases n - from,
    {
        assert(kept@.subrange(from as int, n as int).drop_first() =~= kept@.subrange(
            from + 1,
            n as int,
        ));
        from = from + 1;
    }
    let mut to: usize = n;
    while to > from && kept[to - 1] == '-'
        invariant
            from <= to <= n == kept@.len(),
            trim_hyphens_back(kept@.subrange(from as int, to as int)) == trim_hyphens_back(
                kept@.subrange(from as int, n as int),
            ),
        decreases to,
    {
        assert(kept@.subrange(from as int, to as int).drop_last() =~= kept@.subrange(
            from as int,
            to - 1,
        ));
        to = to - 1;
    }
    string_of(vstd::slice::slice_subrange(kept.as_slice(), from, to))
}

proof fn lemma_trim_front_parts(s: Seq<char>)
    ensures
        forall|i: int|
            0 <= i < trim_hyphens_front(s).len() ==> s.contains(
                #[trigger] trim_hyphens_front(s)[i],
            ),
        trim_hyphens_front(s).len() > 0 ==> trim_hyphens_front(s)[0] != '-',
        trim_hyphens_front(s).len() <= s.len(),
    decreases s.len(),
{
    if s.len() > 0 && s[0] == '-' {
        lemma_trim_front_parts(s.drop_first());
        assert forall|i: int| 0 <= i < trim_hyphens_front(s).len() implies s.contains(
            #[trigger] trim_hyphens_front(s)[i],
        ) by {
            let c = trim_hyphens_front(s.drop_first())[i];
            assert(s.drop_first().contains(c));
            let j = choose|j: int| 0 <= j < s.drop_first().len() && s.drop_first()[j] == c;
            assert(s[j + 1] == c);
        }
    }
}

proof fn lemma_trim_back_parts(s: Seq<char>)
    ensures
        trim_hyphens_back(s).len() <= s.len(),
        trim_hyphens_back(s) == s.subrange(0, trim_hyphens_back(s).len() as int),
        trim_hyphens_back(s).len() > 0 ==> trim_hyphens_back(s).last() != '-',
    decreases s.len(),
{
    if s.len() > 0 && s.last() == '-' {
        lemma_trim_back_parts(s.drop_last());
        let t = trim_hyphens_back(s.drop_last());
        assert(s.drop_last().subrange(0, t.len() as int) =~= s.subrange(0, t.len() as int));
    } else {
        assert(s.subrange(0, s.len() as int) =~= s);
    }
}

proof fn lemma_channel_chars(s: Seq<char>)
    ensures
        forall|i: int|
            0 <= i < channel_chars(s).len() ==> is_channel_char(#[trigger] channel_chars(s)[i]),
    decreases s.len(),
{
    if s.len() > 0 {
        lemma_channel_chars(s.drop_last());
        let rest = channel_chars(s.drop_last());
        assert forall|i: int| 0 <= i < channel_chars(s).len() implies is_channel_char(
            #[trigger] channel_chars(s)[i],
        ) by {
            if i < rest.len() {
                assert(channel_chars(s)[i] == rest[i]);
            }
        }
    }
}

/// The characters of public channel names.
pub open spec fn is_channel_char(c: char) -> bool {
    'a' <= c <= 'z' || '0' <= c <= '9' || c == '-'
}

/// The name of a public channel holds lower case letters, digits and hyphens
/// alone, with no hyphen at either end.
pub proof fn law_channel_name_is_clean(s: Seq<char>)
    ensures
        forall|i: int|
            0 <= i < clean_channel_name(s).len() ==> is_channel_char(
                #[trigger] clean_channel_name(s)[i],
            ),
        clean_channel_name(s).len() > 0 ==> clean_channel_name(s)[0] != '-'
            && clean_channel_name(s).last() != '-',
{
    let a = channel_chars(s);
    let b = trim_hyphens_front(a);
    lemma_channel_chars(s);
    lemma_trim_front_parts(a);
    lemma_trim_back_parts(b);
    let c = clean_channel_name(s);
    assert forall|i: int| 0 <= i < c.len() implies is_channel_char(#[trigger] c[i]) by {
        assert(c[i] == b[i]);
        assert(a.contains(b[i]));
        let j = choose|j: int| 0 <= j < a.len() && a[j] == b[i];
        assert(is_channel_char(a[j]));
    }
}

proof fn lemma_clean_chars_fixed(s: Seq<char>)
    requires
        forall|i: int| 0 <= i < s.len() ==> is_channel_char(#[trigger] s[i]),
    ensures
        channel_chars(s) == s,
    decreases s.len(),
{
    if s.len() > 0 {
        assert forall|i: int| 0 <= i < s.drop_last().len() implies is_channel_char(
            #[trigger] s.drop_last()[i],
        ) by {
            assert(s.drop_last()[i] == s[i]);
        }
        lemma_clean_chars_fixed(s.drop_last());
        assert(is_channel_char(s[s.len() - 1]));
        assert(channel_chars(s) =~= s);
    }
}

/// Cleaning up a channel name twice changes nothing more.
pub proof fn law_channel_name_idempotent(s: Seq<char>)
    ensures
        clean_channel_name(clean_channel_name(s)) == clean_channel_name(s),
{
    law_channel_name_is_clean(s);
    lemma_clean_chars_fixed(clean_channel_name(s));
}

/// Of a name only line breaks and tabs are taken out; all other characters
/// stay, in their order.
pub proof fn law_only_breaks_go(s: Seq<char>)
    ensures
        without_breaks(s) == s.filter(|c: char| c != '\n' && c != '\r' && c != '\t'),
    decreases s.len(),
{
    reveal(Seq::filter);
    if s.len() > 0 {
        law_only_breaks_go(s.drop_last());
    }
}

/// A cleaned name holds no line breaks and no tabs, and neither starts nor
/// ends with white space.
pub proof fn law_name_is_clean(s: Seq<char>)
    ensures
        forall|i: int|
            0 <= i < clean_name(s).len() ==> (#[trigger] clean_name(s)[i]) != '\n'
                && clean_name(s)[i] != '\r' && clean_name(s)[i] != '\t',
        clean_name(s).len() > 0 ==> !text::is_space(clean_name(s)[0]) && !text::is_space(
            clean_name(s).last(),
        ),
{
    let w = without_breaks(s);
    lemma_no_breaks(s);
    text::law_trim_cuts_the_ends(w);
    let (i, j) = choose|i: int, j: int|
        {
            &&& 0 <= i <= j <= w.len()
            &&& text::trimmed(w) == #[trigger] w.subrange(i, j)
            &&& forall|k: int|
                0 <= k < i || j <= k < w.len() ==> text::is_space(#[trigger] w[k])
        };
    assert forall|k: int| 0 <= k < clean_name(s).len() implies (#[trigger] clean_name(s)[k])
        != '\n' && clean_name(s)[k] != '\r' && clean_name(s)[k] != '\t' by {
        assert(clean_name(s)[k] == w[i + k]);
    }
}

proof fn lemma_no_breaks(s: Seq<char>)
    ensures
        forall|i: int|
            0 <= i < without_breaks(s).len() ==> (#[trigger] without_breaks(s)[i]) != '\n'
                && without_breaks(s)[i] != '\r' && without_breaks(s)[i] != '\t',
    decreases s.len(),
{
    if s.len() > 0 {
        lemma_no_breaks(s.drop_last());
        let rest = without_breaks(s.drop_last());
        assert forall|i: int| 0 <= i < without_breaks(s).len() implies (
        #[trigger] without_breaks(s)[i]) != '\n' && without_breaks(s)[i] != '\r'
            && without_breaks(s)[i] != '\t' by {
            if i < rest.len() {
                assert(without_breaks(s)[i] == rest[i]);
            }
        }
    }
}

/// A name that is clean already stays as it is.
pub proof fn law_clean_name_stays(s: Seq<char>)
    requires
        forall|i: int|
            0 <= i < s.len() ==> (#[trigger] s[i]) != '\n' && s[i] != '\r' && s[i] != '\t',
        s.len() > 0 ==> !text::is_space(s[0]) && !text::is_space(s.last()),
    ensures
        clean_name(s) == s,
{
    lemma_nothing_to_take_out(s);
    text::law_trim_leaves_the_rest(s);
}

proof fn lemma_nothing_to_take_out(s: Seq<char>)
    requires
        forall|i: int|
            0 <= i < s.len() ==> (#[trigger] s[i]) != '\n' && s[i] != '\r' && s[i] != '\t',
    ensures
        without_breaks(s) == s,
    decreases s.len(),
{
    if s.len() > 0 {
        let t = s.drop_last();
        assert forall|i: int| 0 <= i < t.len() implies (#[trigger] t[i]) != '\n' && t[i] != '\r'
            && t[i] != '\t' by {
            assert(t[i] == s[i]);
        }
        lemma_nothing_to_take_out(t);
        assert(s[s.len() - 1] != '\n');
        assert(without_breaks(s) =~= s);
    }
}

/// In the name of a public channel small letters, digits and hyphens stay,
/// capital letters become small, and any other character of the keyboard goes.
pub proof fn law_channel_letters(c: char)
    ensures
        'a' <= c <= 'z' || '0' <= c <= '9' || c == '-' ==> channel_char(c) == Some(c),
        'A' <= c <= 'Z' ==> (channel_char(c) matches Some(d) && 'a' <= d <= 'z' && d as int
            - 'a' as int == c as int - 'A' as int),
        (c as int) < 128 && !('a' <= c <= 'z') && !('A' <= c <= 'Z') && !('0' <= c <= '9') && c
            != '-' ==> channel_char(c) is None,
{
}

/// The name of a public channel that is clean already stays as it is.
pub proof fn law_clean_channel_name_stays(s: Seq<char>)
    requires
        forall|i: int| 0 <= i < s.len() ==> is_channel_char(#[trigger] s[i]),
        s.len() > 0 ==> s[0] != '-' && s.last() != '-',
    ensures
        clean_channel_name(s) == s,
{
    lemma_clean_chars_fixed(s);
}

/// What becomes of a text is what becomes of its parts.
pub proof fn law_channel_chars_add_up(a: Seq<char>, b: Seq<char>)
    ensures
        channel_chars(a + b) == channel_chars(a) + channel_chars(b),
    decreases b.len(),
{
    if b.len() == 0 {
        assert(a + b =~= a);
        assert(channel_chars(a) + channel_chars(b) =~= channel_chars(a));
    } else {
        assert((a + b).drop_last() =~= a + b.drop_last());
        assert((a + b).last() == b.last());
        law_channel_chars_add_up(a, b.drop_last());
        assert(channel_chars(a + b) =~= channel_chars(a) + channel_chars(b));
    }
}

} // verus!
