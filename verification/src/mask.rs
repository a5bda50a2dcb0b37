//! The mask directive and the colour table it stands for.
//!
//! A directive is a comma-separated list of items. An item is either a
//! source colour in hexadecimal, which makes that colour fully transparent,
//! or a source and a target colour joined by one `-`, which repaints the
//! source with the opaque target. White space around an item is ignored, an
//! item that does not fit the grammar is skipped, and where a source colour
//! is listed twice the later item decides.

use crate::text::chars_of;
use std::collections::BTreeMap;
use vstd::prelude::*;

verus! {

/// The replacement written into a matching pixel: red, green, blue, alpha.
pub type RemapTarget = (u8, u8, u8, u8);

/// A colour table: from the 24-bit colour of a pixel to its replacement.
pub type MaskSpec = BTreeMap<u32, RemapTarget>;

/// White space as Unicode defines it.
pub open spec fn is_space(c: char) -> bool {
    let n = c as u32;
    ||| 0x09 <= n <= 0x0d
    ||| n == 0x20
    ||| n == 0x85
    ||| n == 0xa0
    ||| n == 0x1680
    ||| 0x2000 <= n <= 0x200a
    ||| n == 0x2028
    ||| n == 0x2029
    ||| n == 0x202f
    ||| n == 0x205f
    ||| n == 0x3000
}

/// The sixteen digits, with the letters in either case.
pub open spec fn is_hex_digit(c: char) -> bool {
    let n = c as u32;
    ||| 0x30 <= n <= 0x39
    ||| 0x41 <= n <= 0x46
    ||| 0x61 <= n <= 0x66
}

/// What a hexadecimal digit counts for; zero for any other character.
pub open spec fn hex_digit_value(c: char) -> nat {
    let n = c as u32;
    if 0x30 <= n <= 0x39 {
        (n - 0x30) as nat
    } else if 0x41 <= n <= 0x46 {
        (n - 0x41 + 10) as nat
    } else if 0x61 <= n <= 0x66 {
        (n - 0x61 + 10) as nat
    } else {
        0
    }
}

/// The number that a run of hexadecimal digits writes, most significant
/// digit first.
pub open spec fn hex_value(s: Seq<char>) -> nat
    decreases s.len(),
{
    if s.len() == 0 {
        0
    } else {
        16 * hex_value(s.drop_last()) + hex_digit_value(s.last())
    }
}

/// Whether every character of `s` is a hexadecimal digit.
pub open spec fn all_hex(s: Seq<char>) -> bool {
    forall|i: int| 0 <= i < s.len() ==> is_hex_digit(#[trigger] s[i])
}

/// A colour written in hexadecimal: at least one digit, nothing but
/// digits, and a value that 32 bits can hold.
pub open spec fn parse_hex(s: Seq<char>) -> Option<u32> {
    if s.len() > 0 && all_hex(s) && hex_value(s) <= u32::MAX {
        Some(hex_value(s) as u32)
    } else {
        None
    }
}

/// `s` without the white space at its start.
pub open spec fn trim_start(s: Seq<char>) -> Seq<char>
    decreases s.len(),
{
    if s.len() > 0 && is_space(s.first()) {
        trim_start(s.drop_first())
    } else {
        s
    }
}

/// `s` without the white space at its end.
pub open spec fn trim_end(s: Seq<char>) -> Seq<char>
    decreases s.len(),
{
    if s.len() > 0 && is_space(s.last()) {
        trim_end(s.drop_last())
    } else {
        s
    }
}

/// `s` without the white space at either end.
pub open spec fn trimmed(s: Seq<char>) -> Seq<char> {
    trim_end(trim_start(s))
}

/// How many characters stand before the first `-` of `t`; the length of
/// `t` where it holds none.
pub open spec fn source_len(t: Seq<char>) -> nat
    decreases t.len(),
{
    if t.len() == 0 || t.first() == '-' {
        0
    } else {
        1 + source_len(t.drop_first())
    }
}

/// The target that a bare source colour stands for.
pub open spec fn transparent() -> RemapTarget {
    (0u8, 0u8, 0u8, 0u8)
}

/// The target that a colour written as 24 bits of red, green and blue
/// stands for. Bits above the 24th are ignored.
pub open spec fn opaque(colour: u32) -> RemapTarget {
    (((colour >> 16) & 0xff) as u8, ((colour >> 8) & 0xff) as u8, (colour & 0xff) as u8, 255u8)
}

/// What one item of a directive, white space removed, stands for: the
/// source colour and its replacement, or `None` where the item does not
/// fit the grammar.
pub open spec fn parse_item(t: Seq<char>) -> Option<(u32, RemapTarget)> {
    let n = source_len(t) as int;
    if n == t.len() {
        match parse_hex(t) {
            Some(source) => Some((source, transparent())),
            None => None,
        }
    } else {
        match (parse_hex(t.take(n)), parse_hex(t.skip(n + 1))) {
            (Some(source), Some(target)) => Some((source, opaque(target))),
            _ => None,
        }
    }
}

/// The items of a directive: the runs between its commas, in order. A
/// directive with `n` commas has `n + 1` items, some of them possibly
/// empty.
pub open spec fn fields(s: Seq<char>) -> Seq<Seq<char>>
    decreases s.len(),
{
    if s.len() == 0 {
        seq![Seq::<char>::empty()]
    } else if s.last() == ',' {
        fields(s.drop_last()).push(Seq::<char>::empty())
    } else {
        let before = fields(s.drop_last());
        before.drop_last().push(before.last().push(s.last()))
    }
}

/// The table that a list of items builds: each item that fits the grammar
/// is entered in turn, so a later item replaces an earlier one with the
/// same source.
pub open spec fn remap_of(items: Seq<Seq<char>>) -> Map<u32, RemapTarget>
    decreases items.len(),
{
    if items.len() == 0 {
        Map::<u32, RemapTarget>::empty()
    } else {
        let rest = remap_of(items.drop_last());
        match parse_item(trimmed(items.last())) {
            Some((source, target)) => rest.insert(source, target),
            None => rest,
        }
    }
}

/// The table that a directive stands for.
pub open spec fn mask_spec(directive: Seq<char>) -> Map<u32, RemapTarget> {
    remap_of(fields(directive))
}

/// Whether `c` is white space.
fn space(c: char) -> (r: bool)
    ensures
        r == is_space(c),
{
    let n: u32 = c as u32;
    (0x09 <= n && n <= 0x0d) || n == 0x20 || n == 0x85 || n == 0xa0 || n == 0x1680 || (0x2000 <= n
        && n <= 0x200a) || n == 0x2028 || n == 0x2029 || n == 0x202f || n == 0x205f || n == 0x3000
}

/// The value of `c` as a hexadecimal digit.
fn hex_digit(c: char) -> (r: Option<u32>)
    ensures
        r is Some <==> is_hex_digit(c),
        r matches Some(d) ==> d == hex_digit_value(c) && d < 16,
{
    let n: u32 = c as u32;
    if 0x30 <= n && n <= 0x39 {
        Some(n - 0x30)
    } else if 0x41 <= n && n <= 0x46 {
        Some(n - 0x41 + 10)
    } else if 0x61 <= n && n <= 0x66 {
        Some(n - 0x61 + 10)
    } else {
        None
    }
}

/// A prefix of a run of digits writes no greater a number than the run.
proof fn lemma_hex_value_prefix(s: Seq<char>, j: int)
    requires
        0 <= j <= s.len(),
    ensures
        hex_value(s.take(j)) <= hex_value(s),
    decreases s.len(),
{
    if j == s.len() {
        assert(s.take(j) =~= s);
    } else {
        lemma_hex_value_prefix(s.drop_last(), j);
        assert(s.drop_last().take(j) =~= s.take(j));
    }
}

/// Where the first `k` characters of `t` hold no `-` and the next one, if
/// there is one, is a `-`, the source of `t` is `k` characters long.
proof fn lemma_source_len(t: Seq<char>, k: int)
    requires
        0 <= k <= t.len(),
        forall|j: int| 0 <= j < k ==> t[j] != '-',
        k == t.len() || t[k] == '-',
    ensures
        source_len(t) == k,
    decreases t.len(),
{
    if k > 0 {
        let rest = t.drop_first();
        assert forall|j: int| 0 <= j < k - 1 implies rest[j] != '-' by {
            assert(rest[j] == t[j + 1]);
        }
        lemma_source_len(rest, k - 1);
    }
}

/// The colour that the characters of `v` from `a` up to `b` write in
/// hexadecimal.
fn read_hex(v: &Vec<char>, a: usize, b: usize) -> (r: Option<u32>)
    requires
        a <= b <= v.len(),
    ensures
        r == parse_hex(v@.subrange(a as int, b as int)),
{
    let ghost s = v@.subrange(a as int, b as int);
    if a == b {
        return None;
    }
    let mut acc: u32 = 0;
    let mut i: usize = a;
    while i < b
        invariant
            a <= i <= b <= v.len(),
            s == v@.subrange(a as int, b as int),
            all_hex(s.take(i - a)),
            acc == hex_value(s.take(i - a)),
        decreases b - i,
    {
        let ghost upto = s.take(i - a + 1);
        proof {
            assert(upto.drop_last() =~= s.take(i - a));
            assert(upto.last() == s[i - a]);
        }
        match hex_digit(v[i]) {
            None => {
                assert(!is_hex_digit(s[i - a]));
                return None;
            },
            Some(d) => {
                if acc > (u32::MAX - d) / 16 {
                    proof {
                        lemma_hex_value_prefix(s, i - a + 1);
                    }
                    return None;
                }
                acc = 16 * acc + d;
                assert forall|j: int| 0 <= j < upto.len() implies is_hex_digit(
                    #[trigger] upto[j],
                ) by {
                    if j < i - a {
                        assert(upto[j] == s.take(i - a)[j]);
                    }
                }
            },
        }
        i += 1;
    }
    assert(s.take(b - a) =~= s);
    Some(acc)
}

/// The bounds of what is left of the characters of `v` from `a` up to `b`
/// once the white space at either end is taken off.
fn trim(v: &Vec<char>, a: usize, b: usize) -> (r: (usize, usize))
    requires
        a <= b <= v.len(),
    ensures
        a <= r.0 <= r.1 <= b,
        v@.subrange(r.0 as int, r.1 as int) == trimmed(v@.subrange(a as int, b as int)),
{
    let mut lo: usize = a;
    while lo < b && space(v[lo])
        invariant
            a <= lo <= b <= v.len(),
            trim_start(v@.subrange(lo as int, b as int)) == trim_start(
                v@.subrange(a as int, b as int),
            ),
        decreases b - lo,
    {
        assert(v@.subrange(lo as int, b as int).drop_first() =~= v@.subrange(lo + 1, b as int));
        lo += 1;
    }
    let mut hi: usize = b;
    while lo < hi && space(v[hi - 1])
        invariant
            lo <= hi <= b <= v.len(),
            trim_end(v@.subrange(lo as int, hi as int)) == trim_end(
                v@.subrange(lo as int, b as int),
            ),
        decreases hi - lo,
    {
        assert(v@.subrange(lo as int, hi as int).drop_last() =~= v@.subrange(lo as int, hi - 1));
        hi -= 1;
    }
    (lo, hi)
}

/// What the item that the characters of `v` from `a` up to `b` write
/// stands for.
fn read_item(v: &Vec<char>, a: usize, b: usize) -> (r: Option<(u32, RemapTarget)>)
    requires
        a <= b <= v.len(),
    ensures
        r == parse_item(v@.subrange(a as int, b as int)),
{
    let ghost t = v@.subrange(a as int, b as int);
    let mut dash: usize = a;
    while dash < b && v[dash] != '-'
        invariant
            a <= dash <= b <= v.len(),
            forall|j: int| a <= j < dash ==> v@[j] != '-',
        decreases b - dash,
    {
        dash += 1;
    }
    proof {
        lemma_source_len(t, dash - a);
    }
    if dash == b {
        match read_hex(v, a, b) {
            Some(source) => Some((source, (0, 0, 0, 0))),
            None => None,
        }
    } else {
        proof {
            assert(t.take(dash - a) =~= v@.subrange(a as int, dash as int));
            assert(t.skip(dash - a + 1) =~= v@.subrange(dash + 1, b as int));
        }
        match (read_hex(v, a, dash), read_hex(v, dash + 1, b)) {
            (Some(source), Some(target)) => {
                let red: u32 = (target >> 16) & 0xff;
                let green: u32 = (target >> 8) & 0xff;
                let blue: u32 = target & 0xff;
                assert(red < 256 && green < 256 && blue < 256) by (bit_vector)
                    requires
                        red == (target >> 16) & 0xff,
                        green == (target >> 8) & 0xff,
                        blue == target & 0xff,
                ;
                Some((source, (red as u8, green as u8, blue as u8, 255)))
            },
            _ => None,
        }
    }
}

/// Makes `target` the replacement of `source`, whatever it was before.
fn set_entry(table: &mut MaskSpec, source: u32, target: RemapTarget)
    ensures
        final(table)@ == old(table)@.insert(source, target),
{
    broadcast use vstd::laws_cmp::group_laws_cmp;

    table.insert(source, target);
}

/// Enters the item that the characters of `v` from `a` up to `b` write,
/// white space around it ignored, into `table`.
fn enter_item(table: &mut MaskSpec, v: &Vec<char>, a: usize, b: usize)
    requires
        a <= b <= v.len(),
    ensures
        final(table)@ == (match parse_item(trimmed(v@.subrange(a as int, b as int))) {
            Some((source, target)) => old(table)@.insert(source, target),
            None => old(table)@,
        }),
{
    let (lo, hi) = trim(v, a, b);
    match read_item(v, lo, hi) {
        Some((source, target)) => {
            set_entry(table, source, target);
        },
        None => {},
    }
}

/// A request's query: the mask directive as the caller wrote it, if there
/// was one.
#[derive(Debug)]
pub struct MaskQuery {
    pub mask: Option<String>,
}

impl MaskQuery {
    /// The directive of this query; empty where the query has none.
    pub open spec fn directive(&self) -> Seq<char> {
        match self.mask {
            Some(text) => text@,
            None => Seq::<char>::empty(),
        }
    }

    /// Reads the directive of this query into a colour table. Nothing
    /// that a caller can write is refused: an item that cannot be read is
    /// left out, and an absent or empty directive gives the empty table.
    pub fn clean(&self) -> (table: MaskSpec)
        ensures
            table@ == mask_spec(self.directive()),
    {
        let v: Vec<char> = match &self.mask {
            Some(text) => chars_of(text.as_str()),
            None => Vec::new(),
        };
        let n: usize = v.len();
        let mut table: MaskSpec = BTreeMap::new();
        let ghost mut done: Seq<Seq<char>> = Seq::empty();
        let mut start: usize = 0;
        let mut i: usize = 0;
        assert(v@.take(0) =~= Seq::<char>::empty());
        assert(v@.subrange(0, 0) =~= Seq::<char>::empty());
        assert(fields(v@.take(0)) =~= done.push(v@.subrange(0, 0)));
        while i < n
            invariant
                0 <= start <= i <= n == v.len(),
                fields(v@.take(i as int)) == done.push(v@.subrange(start as int, i as int)),
                table@ == remap_of(done),
            decreases n - i,
        {
            let ghost upto = v@.take(i + 1);
            proof {
                assert(upto.drop_last() =~= v@.take(i as int));
                assert(upto.last() == v@[i as int]);
            }
            if v[i] == ',' {
                enter_item(&mut table, &v, start, i);
                proof {
                    let item = v@.subrange(start as int, i as int);
                    assert(done.push(item).drop_last() =~= done);
                    done = done.push(item);
                    assert(v@.subrange(i + 1, i + 1) =~= Seq::<char>::empty());
                }
                start = i + 1;
            } else {
                proof {
                    let before = done.push(v@.subrange(start as int, i as int));
                    assert(before.drop_last() =~= done);
                    assert(before.last().push(v@[i as int]) =~= v@.subrange(start as int, i + 1));
                }
            }
            i += 1;
        }
        enter_item(&mut table, &v, start, n);
        proof {
            let item = v@.subrange(start as int, n as int);
            assert(v@.take(n as int) =~= v@);
            assert(done.push(item).drop_last() =~= done);
        }
        table
    }
}

/// Whether the item at place `i` of `items` fits the grammar and has
/// `source` as its source colour.
pub open spec fn item_names(items: Seq<Seq<char>>, i: int, source: u32) -> bool {
    0 <= i < items.len() && (parse_item(trimmed(items[i])) matches Some(entry) && entry.0
        == source)
}

/// Whether every character of `s` is white space.
pub open spec fn all_space(s: Seq<char>) -> bool {
    forall|i: int| 0 <= i < s.len() ==> is_space(#[trigger] s[i])
}

/// Where the white space at the start of `s` ends.
proof fn lemma_trim_start(s: Seq<char>) -> (a: int)
    ensures
        0 <= a <= s.len(),
        trim_start(s) == s.skip(a),
        all_space(s.take(a)),
        a < s.len() ==> !is_space(s[a]),
    decreases s.len(),
{
    if s.len() > 0 && is_space(s.first()) {
        let rest = s.drop_first();
        let a = lemma_trim_start(rest);
        assert(rest.skip(a) =~= s.skip(a + 1));
        assert forall|i: int| 0 <= i < a + 1 implies is_space(#[trigger] s.take(a + 1)[i]) by {
            if i > 0 {
                assert(s[i] == rest.take(a)[i - 1]);
            }
        }
        a + 1
    } else {
        assert(s.skip(0) =~= s);
        0
    }
}

/// Where the white space at the end of `s` begins.
proof fn lemma_trim_end(s: Seq<char>) -> (b: int)
    ensures
        0 <= b <= s.len(),
        trim_end(s) == s.take(b),
        all_space(s.skip(b)),
        b > 0 ==> !is_space(s[b - 1]),
    decreases s.len(),
{
    if s.len() > 0 && is_space(s.last()) {
        let front = s.drop_last();
        let b = lemma_trim_end(front);
        assert(front.take(b) =~= s.take(b));
        assert forall|i: int| 0 <= i < s.len() - b implies is_space(#[trigger] s.skip(b)[i]) by {
            if b + i < s.len() - 1 {
                assert(s[b + i] == front.skip(b)[i]);
            }
        }
        b
    } else {
        assert(s.take(s.len() as int) =~= s);
        s.len() as int
    }
}

/// What trimming leaves is a stretch of the text with nothing but white
/// space before and after it, and with no white space at either of its
/// own ends.
pub proof fn law_trimmed(s: Seq<char>)
    ensures
        exists|a: int, b: int|
            0 <= a <= b <= s.len() && trimmed(s) == #[trigger] s.subrange(a, b) && all_space(
                s.take(a),
            ) && all_space(s.skip(b)),
        trimmed(s).len() > 0 ==> !is_space(trimmed(s).first()) && !is_space(trimmed(s).last()),
{
    let a = lemma_trim_start(s);
    let t = s.skip(a);
    let n = lemma_trim_end(t);
    let b = a + n;
    assert(t.take(n) =~= s.subrange(a, b));
    assert forall|i: int| 0 <= i < s.len() - b implies is_space(#[trigger] s.skip(b)[i]) by {
        assert(s.skip(b)[i] == t.skip(n)[i]);
    }
    if trimmed(s).len() > 0 {
        assert(trimmed(s).first() == s[a]);
        assert(trimmed(s).last() == t[n - 1]);
    }
}

/// No item of a directive holds a comma.
pub proof fn law_fields_hold_no_comma(s: Seq<char>)
    ensures
        fields(s).len() > 0,
        forall|i: int, j: int|
            0 <= i < fields(s).len() && 0 <= j < fields(s)[i].len() ==> #[trigger] fields(
                s,
            )[i][j] != ',',
    decreases s.len(),
{
    if s.len() > 0 {
        law_fields_hold_no_comma(s.drop_last());
    }
}

/// A run without a comma is one item.
pub proof fn law_fields_of_one_item(s: Seq<char>)
    requires
        forall|i: int| 0 <= i < s.len() ==> s[i] != ',',
    ensures
        fields(s) == seq![s],
    decreases s.len(),
{
    if s.len() == 0 {
        assert(s =~= Seq::<char>::empty());
    } else {
        law_fields_of_one_item(s.drop_last());
        let before = seq![s.drop_last()];
        assert(before.drop_last().push(before.last().push(s.last())) =~= seq![s]) by {
            assert(s.drop_last().push(s.last()) =~= s);
        }
    }
}

/// Splitting undoes joining: the items of two directives joined by a
/// comma are the items of the first followed by the items of the second.
pub proof fn law_fields_of_joined(a: Seq<char>, b: Seq<char>)
    ensures
        fields(a + seq![','] + b) == fields(a) + fields(b),
    decreases b.len(),
{
    let joined = a + seq![','] + b;
    if b.len() == 0 {
        assert(joined.drop_last() =~= a);
        assert(fields(a).push(Seq::<char>::empty()) =~= fields(a) + fields(b));
    } else {
        law_fields_of_joined(a, b.drop_last());
        assert(joined.drop_last() =~= a + seq![','] + b.drop_last());
        assert(joined.last() == b.last());
        law_fields_hold_no_comma(b.drop_last());
        let before = fields(a) + fields(b.drop_last());
        if b.last() == ',' {
            assert(before.push(Seq::<char>::empty()) =~= fields(a) + fields(b));
        } else {
            let tail = fields(b.drop_last());
            assert(before.drop_last() =~= fields(a) + tail.drop_last());
            assert(before.last() == tail.last());
            assert(before.drop_last().push(before.last().push(b.last())) =~= fields(a)
                + tail.drop_last().push(tail.last().push(b.last())));
        }
    }
}

/// A directive with one more item at its end stands for the table of the
/// directive before it with that item entered: an item that fits the
/// grammar sets the target of its source, whatever earlier items said of
/// that source, and any other item changes nothing.
pub proof fn law_appended_item(head: Seq<char>, item: Seq<char>)
    requires
        forall|i: int| 0 <= i < item.len() ==> item[i] != ',',
    ensures
        mask_spec(head + seq![','] + item) == (match parse_item(trimmed(item)) {
            Some((source, target)) => mask_spec(head).insert(source, target),
            None => mask_spec(head),
        }),
{
    law_fields_of_joined(head, item);
    law_fields_of_one_item(item);
    let items = fields(head) + seq![item];
    assert(items.drop_last() =~= fields(head));
    assert(items.last() == item);
}

/// The table of a single item holds that item's entry and nothing else.
proof fn lemma_remap_of_one_item(item: Seq<char>)
    ensures
        remap_of(seq![item]) == (match parse_item(trimmed(item)) {
            Some((source, target)) => Map::<u32, RemapTarget>::empty().insert(source, target),
            None => Map::<u32, RemapTarget>::empty(),
        }),
{
    let items = seq![item];
    assert(items.drop_last() =~= Seq::<Seq<char>>::empty());
    assert(items.last() == item);
    assert(remap_of(items.drop_last()) == Map::<u32, RemapTarget>::empty());
}

/// The empty directive stands for the empty table.
pub proof fn law_empty_directive(directive: Seq<char>)
    requires
        directive.len() == 0,
    ensures
        mask_spec(directive) == Map::<u32, RemapTarget>::empty(),
{
    lemma_remap_of_one_item(Seq::<char>::empty());
    assert(fields(directive) =~= seq![Seq::<char>::empty()]);
}

/// A source colour alone makes that colour fully transparent: as an item,
/// and as the whole of a directive.
pub proof fn law_source_alone_is_transparent(source: Seq<char>)
    requires
        parse_hex(source) is Some,
    ensures
        parse_item(source) == Some((parse_hex(source)->0, (0u8, 0u8, 0u8, 0u8))),
        mask_spec(source) == Map::<u32, RemapTarget>::empty().insert(
            parse_hex(source)->0,
            (0u8, 0u8, 0u8, 0u8),
        ),
{
    assert forall|i: int| 0 <= i < source.len() implies source[i] != '-' && source[i] != ',' by {
        assert(is_hex_digit(source[i]));
    }
    lemma_source_len(source, source.len() as int);
    law_fields_of_one_item(source);
    assert(is_hex_digit(source.first()) && is_hex_digit(source.last()));
    assert(trimmed(source) == source);
    lemma_remap_of_one_item(source);
}

/// A source and a target joined by `-` repaint the source with the
/// target's red, green and blue, fully opaque: as an item, and as the whole
/// of a directive.
pub proof fn law_pair_is_opaque(source: Seq<char>, target: Seq<char>)
    requires
        parse_hex(source) is Some,
        parse_hex(target) is Some,
    ensures
        ({
            let item = source + seq!['-'] + target;
            let key = parse_hex(source)->0;
            let colour = parse_hex(target)->0;
            let paint = (
                ((colour >> 16) & 0xff) as u8,
                ((colour >> 8) & 0xff) as u8,
                (colour & 0xff) as u8,
                255u8,
            );
            &&& parse_item(item) == Some((key, paint))
            &&& mask_spec(item) == Map::<u32, RemapTarget>::empty().insert(key, paint)
        }),
{
    let item = source + seq!['-'] + target;
    let n = source.len() as int;
    assert forall|i: int| 0 <= i < item.len() implies item[i] != ',' by {
        if i < n {
            assert(is_hex_digit(source[i]));
        } else if i > n {
            assert(is_hex_digit(target[i - n - 1]));
        }
    }
    assert forall|i: int| 0 <= i < n implies item[i] != '-' by {
        assert(is_hex_digit(source[i]));
    }
    lemma_source_len(item, n);
    assert(item.take(n) =~= source);
    assert(item.skip(n + 1) =~= target);
    law_fields_of_one_item(item);
    assert(is_hex_digit(source.first()) && is_hex_digit(target.last()));
    assert(item.first() == source.first() && item.last() == target.last());
    assert(trimmed(item) == item);
    lemma_remap_of_one_item(item);
}

/// Where a source colour is listed more than once, the last item that
/// names it decides: the table maps the source of an item to that item's
/// target unless a later item names the same source.
pub proof fn law_last_item_decides(
    items: Seq<Seq<char>>,
    i: int,
    source: u32,
    target: RemapTarget,
)
    requires
        0 <= i < items.len(),
        parse_item(trimmed(items[i])) == Some((source, target)),
        forall|j: int| i < j < items.len() ==> !item_names(items, j, source),
    ensures
        remap_of(items).contains_key(source),
        remap_of(items)[source] == target,
    decreases items.len(),
{
    let last = items.len() - 1;
    if i < last {
        let front = items.drop_last();
        assert forall|j: int| i < j < front.len() implies !item_names(front, j, source) by {
            assert(!item_names(items, j, source));
        }
        law_last_item_decides(front, i, source, target);
        assert(!item_names(items, last, source));
    }
}

/// The table holds a source colour exactly where some item that fits the
/// grammar names it.
pub proof fn law_table_holds_what_items_name(items: Seq<Seq<char>>, source: u32)
    ensures
        remap_of(items).contains_key(source) <==> exists|i: int| item_names(items, i, source),
    decreases items.len(),
{
    if items.len() > 0 {
        let front = items.drop_last();
        let last = items.len() - 1;
        law_table_holds_what_items_name(front, source);
        if remap_of(items).contains_key(source) {
            if remap_of(front).contains_key(source) {
                let i = choose|i: int| item_names(front, i, source);
                assert(item_names(items, i, source));
            } else {
                assert(item_names(items, last, source));
            }
        }
        if exists|i: int| item_names(items, i, source) {
            let i = choose|i: int| item_names(items, i, source);
            if i < last {
                assert(item_names(front, i, source));
            }
        }
    }
}

/// An item that does not fit the grammar leaves no trace: the table is
/// the one that the other items build.
pub proof fn law_skipped_item_leaves_no_trace(items: Seq<Seq<char>>, i: int)
    requires
        0 <= i < items.len(),
        parse_item(trimmed(items[i])) is None,
    ensures
        remap_of(items) == remap_of(items.remove(i)),
    decreases items.len(),
{
    let last = items.len() - 1;
    if i == last {
        assert(items.remove(i) =~= items.drop_last());
    } else {
        law_skipped_item_leaves_no_trace(items.drop_last(), i);
        assert(items.remove(i).drop_last() =~= items.drop_last().remove(i));
        assert(items.remove(i).last() == items.last());
    }
}

/// An item is skipped where it is empty, where it holds a character that
/// is neither a hexadecimal digit nor `-`, and where it holds more than
/// one `-`.
pub proof fn law_malformed_item_is_skipped(t: Seq<char>)
    requires
        t.len() == 0 || (exists|i: int| 0 <= i < t.len() && !is_hex_digit(t[i]) && t[i] != '-') || (
        exists|i: int, j: int| 0 <= i < j < t.len() && t[i] == '-' && t[j] == '-'),
    ensures
        parse_item(t) is None,
{
    let n = source_len(t) as int;
    lemma_source_len_bounds(t);
    if t.len() == 0 {
    } else if exists|i: int| 0 <= i < t.len() && !is_hex_digit(t[i]) && t[i] != '-' {
        let i = choose|i: int| 0 <= i < t.len() && !is_hex_digit(t[i]) && t[i] != '-';
        if n < t.len() {
            if i < n {
                assert(!is_hex_digit(t.take(n)[i]));
            } else {
                assert(!is_hex_digit(t.skip(n + 1)[i - n - 1]));
            }
        }
    } else {
        let (i, j) = choose|i: int, j: int| 0 <= i < j < t.len() && t[i] == '-' && t[j] == '-';
        assert(n <= i);
        assert(!is_hex_digit(t.skip(n + 1)[j - n - 1]));
    }
}

/// The source of `t` holds no `-`, and a `-` follows it unless it is the
/// whole of `t`.
proof fn lemma_source_len_bounds(t: Seq<char>)
    ensures
        source_len(t) <= t.len(),
        forall|j: int| 0 <= j < source_len(t) ==> t[j] != '-',
        source_len(t) < t.len() ==> t[source_len(t) as int] == '-',
    decreases t.len(),
{
    if !(t.len() == 0 || t.first() == '-') {
        let rest = t.drop_first();
        lemma_source_len_bounds(rest);
        assert forall|j: int| 0 <= j < source_len(t) implies t[j] != '-' by {
            if j > 0 {
                assert(t[j] == rest[j - 1]);
            }
        }
    }
}

} // verus!
