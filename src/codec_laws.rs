use vstd::prelude::*;
use crate::descriptor::{
    calibration_block, calibration_blocks, decoded, encoded, encoded_with_id, flat_fields, flat_step, is_k_key, key_order,
    is_separator, k_fields, k_open_at, k_param, k_parts, k_step, last_k_open, lemma_segments_nonempty,
    no_fields, prefix, resolve, segments, FlatFields, KFields,
};
use crate::model::{CalibrationModel, FilamentInfoModel};
use crate::tag::replace_all;
use crate::text::{
    all_digits, decimal, digit_char, digit_value, digits_value, escape_code, escaped,
    lemma_find_char, lemma_unescape_escaped, parse_uint, split_once, starts_with, trim_zeros,
    unsigned_digits,
};

verus! {

proof fn lemma_digit_char(d: nat)
    requires
        d < 10,
    ensures
        digit_value(digit_char(d), 10) == Some(d),
        '0' <= digit_char(d) <= '9',
{
    assert(digit_char(d) as nat == d + 48);
}

proof fn lemma_decimal_digits(n: nat)
    ensures
        decimal(n).len() > 0,
        all_digits(decimal(n), 10),
        digits_value(decimal(n), 10) == n,
        '0' <= decimal(n)[0] <= '9',
    decreases n,
{
    if n < 10 {
        lemma_digit_char(n);
        assert(decimal(n).drop_last() =~= Seq::<char>::empty());
        assert(decimal(n).last() == digit_char(n));
        assert(digits_value(decimal(n), 10) == digits_value(Seq::<char>::empty(), 10) * 10 + n);
    } else {
        lemma_decimal_digits(n / 10);
        lemma_digit_char(n % 10);
        let s = decimal(n);
        assert(s.drop_last() =~= decimal(n / 10));
        assert(s.last() == digit_char(n % 10));
        assert(n == (n / 10) * 10 + n % 10) by (nonlinear_arith);
        assert(digits_value(s, 10) == digits_value(decimal(n / 10), 10) * 10 + n % 10);
        assert forall|i: int| 0 <= i < s.len() implies (#[trigger] digit_value(s[i], 10)) is Some by {
            if i < s.len() - 1 {
                assert(s[i] == decimal(n / 10)[i]);
            }
        }
        assert(s[0] == decimal(n / 10)[0]);
    }
}

/// The decimal text of a `u32` reads back as it.
pub proof fn lemma_parse_decimal(n: u32)
    ensures
        parse_uint(decimal(n as nat), 10) == Some(n),
{
    lemma_decimal_digits(n as nat);
    assert(unsigned_digits(decimal(n as nat)) == decimal(n as nat));
}

/// The characters that escaping replaces.
pub open spec fn is_escaped_char(c: char) -> bool {
    escape_code(c) is Some
}

/// Escaped text holds none of the escaped characters, and a character other than
/// those and `%`, `0`-`9`, `A`-`F` only where the original text has it.
pub proof fn lemma_escaped_chars(s: Seq<char>, c: char)
    requires
        !is_escaped_char(c),
        c != '%',
        !('0' <= c <= '9'),
        !('A' <= c <= 'F'),
        !s.contains(c),
    ensures
        !escaped(s).contains(c),
        forall|i: int| 0 <= i < escaped(s).len() ==> !is_escaped_char(#[trigger] escaped(s)[i]) || escaped(s)[i] == '%',
    decreases s.len(),
{
    if s.len() > 0 {
        lemma_escaped_chars(s.drop_first(), c);
        let rest = escaped(s.drop_first());
        let e = escaped(s);
        match escape_code(s[0]) {
            Some(p) => {
                assert(e == seq!['%', p.0, p.1] + rest);
                assert forall|i: int| 0 <= i < e.len() implies e[i] != c by {
                    if i >= 3 {
                        assert(e[i] == rest[i - 3]);
                    }
                }
                assert forall|i: int| 0 <= i < e.len() implies !is_escaped_char(#[trigger] e[i]) || e[i] == '%' by {
                    if i >= 3 {
                        assert(e[i] == rest[i - 3]);
                    }
                }
            },
            None => {
                assert(e == seq![s[0]] + rest);
                assert(s[0] != c);
                assert forall|i: int| 0 <= i < e.len() implies e[i] != c by {
                    if i >= 1 {
                        assert(e[i] == rest[i - 1]);
                    }
                }
                assert forall|i: int| 0 <= i < e.len() implies !is_escaped_char(#[trigger] e[i]) || e[i] == '%' by {
                    if i >= 1 {
                        assert(e[i] == rest[i - 1]);
                    }
                }
            },
        }
    }
}

/// Splitting at a separator splits the segments.
pub proof fn lemma_segments_concat(x: Seq<char>, c: char, y: Seq<char>)
    requires
        is_separator(c),
    ensures
        segments(x + seq![c] + y) == segments(x) + segments(y),
    decreases y.len(),
{
    if y.len() == 0 {
        assert((x + seq![c] + y).drop_last() =~= x);
        assert(segments(x).push(Seq::empty()) =~= segments(x) + seq![Seq::<char>::empty()]);
    } else {
        let y1 = y.drop_last();
        lemma_segments_concat(x, c, y1);
        lemma_segments_nonempty(y1);
        assert((x + seq![c] + y).drop_last() =~= x + seq![c] + y1);
        assert((x + seq![c] + y).last() == y.last());
        let p = segments(x) + segments(y1);
        if is_separator(y.last()) {
            assert(p.push(Seq::empty()) =~= segments(x) + segments(y1).push(Seq::empty()));
        } else {
            let q = segments(y1);
            assert(p.update(p.len() - 1, p.last().push(y.last())) =~= segments(x) + q.update(
                q.len() - 1,
                q.last().push(y.last()),
            ));
        }
    }
}

/// Text without a separator is one segment.
pub proof fn lemma_segments_single(x: Seq<char>)
    requires
        forall|i: int| 0 <= i < x.len() ==> !is_separator(#[trigger] x[i]),
    ensures
        segments(x) == seq![x],
    decreases x.len(),
{
    if x.len() > 0 {
        assert forall|i: int| 0 <= i < x.drop_last().len() implies !is_separator(
            #[trigger] x.drop_last()[i],
        ) by {
            assert(x.drop_last()[i] == x[i]);
        }
        lemma_segments_single(x.drop_last());
        assert(!is_separator(x[x.len() - 1]));
        assert(x.drop_last().push(x.last()) =~= x);
        assert(seq![x.drop_last()].update(0, x.drop_last().push(x.last())) =~= seq![x]);
    } else {
        assert(x =~= Seq::<char>::empty());
    }
}

/// Removing trailing zeros twice removes them once.
pub proof fn lemma_trim_zeros_idempotent(s: Seq<char>)
    ensures
        trim_zeros(trim_zeros(s)) == trim_zeros(s),
    decreases s.len(),
{
    if s.len() > 0 && s.last() == '0' {
        lemma_trim_zeros_idempotent(s.drop_last());
    }
}

/// `trim_zeros` keeps a prefix.
pub proof fn lemma_trim_zeros_prefix(s: Seq<char>)
    ensures
        trim_zeros(s).len() <= s.len(),
        trim_zeros(s) == s.take(trim_zeros(s).len() as int),
    decreases s.len(),
{
    if s.len() > 0 && s.last() == '0' {
        lemma_trim_zeros_prefix(s.drop_last());
        assert(s.drop_last().take(trim_zeros(s).len() as int) =~= s.take(trim_zeros(s).len() as int));
    } else {
        assert(s.take(s.len() as int) =~= s);
    }
}

/// Free of separators and of `(`: safe as a descriptor field value.
pub open spec fn field_safe(s: Seq<char>) -> bool {
    forall|i: int| 0 <= i < s.len() ==> !is_separator(#[trigger] s[i]) && s[i] != '('
}

/// Safe as the k or setting part of a calibration block.
pub open spec fn part_safe(s: Seq<char>) -> bool {
    forall|i: int|
        0 <= i < s.len() ==> !is_separator(#[trigger] s[i]) && s[i] != '(' && s[i] != '~' && s[i]
            != '\n'
}

/// Free of line breaks and of `=`: safe as a printer name.
pub open spec fn name_safe(s: Seq<char>) -> bool {
    !s.contains('\n') && !s.contains('=')
}

/// A calibration as a descriptor brings it back: k without trailing zeros, and no
/// coefficient text (the descriptor does not carry it).
pub open spec fn normalized(c: CalibrationModel) -> CalibrationModel {
    CalibrationModel { k_value: trim_zeros(c.k_value), n_coef: Seq::empty(), ..c }
}

/// A filament with each calibration normalized.
pub open spec fn normalized_info(f: FilamentInfoModel) -> FilamentInfoModel {
    FilamentInfoModel {
        calibrations: Map::new(
            |k: Seq<char>| f.calibrations.contains_key(k),
            |k: Seq<char>| normalized(f.calibrations[k]),
        ),
        ..f
    }
}

/// A filament calibration that a descriptor carries through `tables`: a diameter
/// `0.<d>` with `d` one of 4, 2, 6, 8, parts free of the descriptor's delimiters, and
/// the tables resolving the tag's entry to this calibration, normalized.
pub open spec fn calibration_ready(
    fid: Seq<char>,
    e: (Seq<char>, CalibrationModel),
    tables: Map<Seq<char>, Map<i32, CalibrationModel>>,
) -> bool {
    &&& e.0.len() == 3 && e.0[0] == '0' && e.0[1] == '.' && is_k_key(seq!['K', e.0[2]])
    &&& part_safe(e.1.k_value)
    &&& part_safe(e.1.setting_id)
    &&& !e.1.name.contains('\n')
    &&& resolve(tables, e.0, fid, trim_zeros(e.1.k_value), e.1.setting_id, e.1.name) == Some(
        normalized(e.1),
    )
}

/// A filament whose descriptor decodes back to it against `tables`.
pub open spec fn round_trip_ready(
    f: FilamentInfoModel,
    name: Seq<char>,
    tables: Map<Seq<char>, Map<i32, CalibrationModel>>,
) -> bool {
    &&& field_safe(f.tray_type)
    &&& field_safe(f.tray_color)
    &&& field_safe(f.tray_info_idx)
    &&& name_safe(name)
    &&& forall|k: Seq<char>|
        f.calibrations.contains_key(k) ==> calibration_ready(
            f.tray_info_idx,
            (k, #[trigger] f.calibrations[k]),
            tables,
        )
}

/// A calibration block without its leading `&`.
pub open spec fn block_body(ne: Seq<char>, n: Seq<char>, c: CalibrationModel) -> Seq<char> {
    ne + seq!['(', 'K', n[2], '='] + trim_zeros(c.k_value) + seq!['~'] + c.setting_id + seq!['~']
        + escaped(c.name) + seq![')']
}

pub open spec fn block_bodies(
    ne: Seq<char>,
    cals: Map<Seq<char>, CalibrationModel>,
    order: Seq<Seq<char>>,
) -> Seq<Seq<char>> {
    Seq::new(order.len(), |i: int| block_body(ne, order[i], cals[order[i]]))
}

/// The calibrations left after setting those of `cals` under each diameter of `order`, in
/// order, from none.
pub open spec fn set_all(cals: Map<Seq<char>, CalibrationModel>, order: Seq<Seq<char>>) -> Map<
    Seq<char>,
    CalibrationModel,
>
    decreases order.len(),
{
    if order.len() == 0 {
        Map::empty()
    } else {
        set_all(cals, order.drop_last()).insert(order.last(), normalized(cals[order.last()]))
    }
}

proof fn lemma_set_all(cals: Map<Seq<char>, CalibrationModel>, order: Seq<Seq<char>>)
    ensures
        set_all(cals, order) == Map::new(|k: Seq<char>| order.contains(k), |k: Seq<char>| normalized(cals[k])),
    decreases order.len(),
{
    if order.len() == 0 {
        assert(set_all(cals, order) =~= Map::new(|k: Seq<char>| order.contains(k), |k: Seq<char>| normalized(cals[k])));
    } else {
        let o1 = order.drop_last();
        lemma_set_all(cals, o1);
        assert forall|k: Seq<char>| order.contains(k) <==> (o1.contains(k) || k == order.last()) by {
            if order.contains(k) && k != order.last() {
                let i = choose|i: int| 0 <= i < order.len() && order[i] == k;
                assert(o1[i] == k);
            }
            if o1.contains(k) {
                let i = choose|i: int| 0 <= i < o1.len() && o1[i] == k;
                assert(order[i] == k);
            }
            if k == order.last() {
                assert(order[order.len() - 1] == k);
            }
        }
        assert(set_all(cals, order) =~= Map::new(|k: Seq<char>| order.contains(k), |k: Seq<char>| normalized(cals[k])));
    }
}

/// The printer-name part of a block: escaped, so free of delimiters.
proof fn lemma_name_part(name: Seq<char>)
    requires
        name_safe(name),
    ensures
        !escaped(name).contains('\n'),
        !escaped(name).contains('='),
        forall|i: int|
            0 <= i < escaped(name).len() ==> !is_separator(#[trigger] escaped(name)[i])
                && escaped(name)[i] != '(' && escaped(name)[i] != '~',
{
    lemma_escaped_chars(name, '\n');
    lemma_escaped_chars(name, '=');
}

proof fn lemma_body_chars(ne: Seq<char>, n: Seq<char>, c: CalibrationModel, i: int)
    requires
        n.len() == 3,
        is_k_key(seq!['K', n[2]]),
        part_safe(c.k_value),
        part_safe(c.setting_id),
        !c.name.contains('\n'),
        forall|j: int| 0 <= j < ne.len() ==> !is_separator(#[trigger] ne[j]) && ne[j] != '(' && ne[j] != '~',
        !ne.contains('\n'),
        0 <= i < block_body(ne, n, c).len(),
    ensures
        !is_separator(block_body(ne, n, c)[i]),
        block_body(ne, n, c)[i] != '\n',
        block_body(ne, n, c)[i] == '(' ==> i == ne.len(),
{
    let kt = trim_zeros(c.k_value);
    lemma_trim_zeros_prefix(c.k_value);
    lemma_escaped_chars(c.name, '\n');
    let b = block_body(ne, n, c);
    let en = escaped(c.name);
    let l0 = ne.len() as int;
    let l1 = l0 + 4;
    let l2 = l1 + kt.len();
    let l3 = l2 + 1 + c.setting_id.len();
    let l4 = l3 + 1 + en.len();
    assert(b.len() == l4 + 1);
    if i < l0 {
        assert(b[i] == ne[i]);
        assert(ne.contains(ne[i]));
    } else if i < l1 {
    } else if i < l2 {
        assert(b[i] == kt[i - l1]);
        assert(kt[i - l1] == c.k_value[i - l1]);
    } else if i == l2 {
    } else if i < l3 {
        assert(b[i] == c.setting_id[i - l2 - 1]);
    } else if i == l3 {
    } else if i < l4 {
        assert(b[i] == en[i - l3 - 1]);
        assert(en.contains(en[i - l3 - 1]));
    }
}

/// Segments of text followed by calibration blocks.
proof fn lemma_segments_blocks(
    a: Seq<char>,
    ne: Seq<char>,
    cals: Map<Seq<char>, CalibrationModel>,
    order: Seq<Seq<char>>,
)
    requires
        forall|i: int| 0 <= i < order.len() ==> cals.contains_key(#[trigger] order[i]) && order[i].len() >= 3,
        forall|i: int, j: int|
            0 <= i < order.len() && 0 <= j < block_body(ne, order[i], cals[order[i]]).len()
                ==> !is_separator(#[trigger] block_body(ne, order[i], cals[order[i]])[j]),
    ensures
        segments(a + calibration_blocks(ne, cals, order)) == segments(a) + block_bodies(ne, cals, order),
    decreases order.len(),
{
    if order.len() == 0 {
        assert(a + calibration_blocks(ne, cals, order) =~= a);
        assert(segments(a) + block_bodies(ne, cals, order) =~= segments(a));
    } else {
        let o1 = order.drop_last();
        assert forall|i: int| 0 <= i < o1.len() implies cals.contains_key(#[trigger] o1[i]) && o1[i].len() >= 3 by {
            assert(o1[i] == order[i]);
        }
        assert forall|i: int, j: int|
            0 <= i < o1.len() && 0 <= j < block_body(ne, o1[i], cals[o1[i]]).len() implies !is_separator(
                #[trigger] block_body(ne, o1[i], cals[o1[i]])[j],
            ) by {
            assert(o1[i] == order[i]);
        }
        lemma_segments_blocks(a, ne, cals, o1);
        let last = order.last();
        assert(order[order.len() - 1] == last);
        let body = block_body(ne, last, cals[last]);
        assert(calibration_block(ne, last, cals[last]) =~= seq!['&'] + body);
        assert(a + calibration_blocks(ne, cals, order) =~= (a + calibration_blocks(ne, cals, o1)) + seq!['&'] + body);
        lemma_segments_concat(a + calibration_blocks(ne, cals, o1), '&', body);
        assert forall|j: int| 0 <= j < body.len() implies !is_separator(#[trigger] body[j]) by {
            assert(block_body(ne, order[order.len() - 1], cals[order[order.len() - 1]])[j] == body[j]);
        }
        lemma_segments_single(body);
        assert(block_bodies(ne, cals, o1).push(body) =~= block_bodies(ne, cals, order));
        assert(segments(a) + block_bodies(ne, cals, o1) + seq![body] =~= segments(a) + block_bodies(ne, cals, order));
    }
}

/// A segment the first pass leaves alone: not the marker, and no field name before a `=`.
pub open spec fn flat_inert(b: Seq<char>) -> bool {
    b.len() > 2 && match split_once(b, '=') {
        Some(p) => p.0.len() >= 3,
        None => true,
    }
}

proof fn lemma_flat_inert(st: FlatFields, b: Seq<char>)
    requires
        flat_inert(b),
    ensures
        flat_step(st, b) == st,
{
    reveal_strlit("V1");
    reveal_strlit("ID");
    reveal_strlit("M");
    reveal_strlit("C");
    reveal_strlit("NN");
    reveal_strlit("NX");
    reveal_strlit("FI");
    assert(b != "V1"@);
}

proof fn lemma_flat_fields_inert(q: Seq<Seq<char>>, r: Seq<Seq<char>>)
    requires
        forall|i: int| 0 <= i < r.len() ==> flat_inert(#[trigger] r[i]),
    ensures
        flat_fields(q + r) == flat_fields(q),
    decreases r.len(),
{
    if r.len() == 0 {
        assert(q + r =~= q);
    } else {
        let r1 = r.drop_last();
        assert forall|i: int| 0 <= i < r1.len() implies flat_inert(#[trigger] r1[i]) by {
            assert(r1[i] == r[i]);
        }
        lemma_flat_fields_inert(q, r1);
        assert((q + r).drop_last() =~= q + r1);
        assert((q + r).last() == r[r.len() - 1]);
        lemma_flat_inert(flat_fields(q + r1), r.last());
    }
}

proof fn lemma_no_open_paren(s: Seq<char>, n: int)
    requires
        !s.contains('('),
    ensures
        last_k_open(s, n) is None,
    decreases n,
{
    if n > 0 {
        if 0 <= n - 1 < s.len() {
            assert(s[n - 1] != '(') by {
                if s[n - 1] == '(' {
                    assert(s.contains(s[n - 1]));
                }
            }
        }
        lemma_no_open_paren(s, n - 1);
    }
}

/// A segment the second pass leaves alone: no `(`, and no calibration key before a `=`.
pub open spec fn k_inert(b: Seq<char>) -> bool {
    !b.contains('(') && match split_once(b, '=') {
        Some(p) => !is_k_key(p.0),
        None => true,
    }
}

proof fn lemma_k_inert(
    tables: Map<Seq<char>, Map<i32, CalibrationModel>>,
    fid: Seq<char>,
    st: KFields,
    b: Seq<char>,
)
    requires
        k_inert(b),
    ensures
        k_step(tables, fid, st, b) == st,
{
    lemma_no_open_paren(b, b.len() as int);
    assert(k_param(b) == b);
}

/// The second pass applies a block: the calibration it stands for is set under its diameter.
proof fn lemma_k_block(
    tables: Map<Seq<char>, Map<i32, CalibrationModel>>,
    fid: Seq<char>,
    st: KFields,
    name: Seq<char>,
    e: (Seq<char>, CalibrationModel),
)
    requires
        name_safe(name),
        calibration_ready(fid, e, tables),
    ensures
        k_step(tables, fid, st, block_body(escaped(name), e.0, e.1)) == (KFields {
            calibrations: st.calibrations.insert(e.0, normalized(e.1)),
            ..st
        }),
{
    let ne = escaped(name);
    let (n, c) = e;
    let b = block_body(ne, n, c);
    let kt = trim_zeros(c.k_value);
    let en = escaped(c.name);
    lemma_name_part(name);
    lemma_trim_zeros_prefix(c.k_value);
    let l0 = ne.len() as int;
    assert forall|i: int| 0 <= i < b.len() implies b[i] != '\n' && (b[i] == '(' ==> i == l0) by {
        lemma_body_chars(ne, n, c, i);
    }
    assert(!b.contains('\n'));
    assert(b.last() == ')');
    assert(k_open_at(b, l0));
    assert forall|m: int| l0 < m <= b.len() implies last_k_open(b, m) == Some(l0) by {
        assert forall|k: int| l0 < k <= m implies last_k_open(b, k) == Some(l0) by {
            lemma_last_k_open_from(b, l0, k);
        }
    }
    let inner = seq!['K', n[2], '='] + kt + seq!['~'] + c.setting_id + seq!['~'] + en;
    assert(b.subrange(l0 + 1, b.len() - 1) =~= inner);
    assert(k_param(b) == inner);
    lemma_find_char(inner, '=', 2);
    assert(inner.take(2) =~= seq!['K', n[2]]);
    let value = kt + seq!['~'] + c.setting_id + seq!['~'] + en;
    assert(inner.skip(3) =~= value);
    assert forall|j: int| 0 <= j < kt.len() implies value[j] != '~' by {
        assert(value[j] == kt[j]);
        assert(kt[j] == c.k_value[j]);
    }
    lemma_find_char(value, '~', kt.len() as int);
    assert(value.take(kt.len() as int) =~= kt);
    let rest = c.setting_id + seq!['~'] + en;
    assert(value.skip(kt.len() as int + 1) =~= rest);
    assert forall|j: int| 0 <= j < c.setting_id.len() implies rest[j] != '~' by {
        assert(rest[j] == c.setting_id[j]);
    }
    lemma_find_char(rest, '~', c.setting_id.len() as int);
    assert(rest.take(c.setting_id.len() as int) =~= c.setting_id);
    assert(rest.skip(c.setting_id.len() as int + 1) =~= en);
    assert(k_parts(value) == Some((kt, c.setting_id, en)));
    assert(seq!['0', '.', inner.take(2)[1]] =~= n);
    lemma_trim_zeros_idempotent(c.k_value);
    lemma_unescape_escaped(c.name);
}

proof fn lemma_last_k_open_from(s: Seq<char>, p: int, m: int)
    requires
        k_open_at(s, p),
        p < m,
        forall|j: int| p < j < s.len() ==> s[j] != '(',
    ensures
        last_k_open(s, m) == Some(p),
    decreases m,
{
    if m - 1 > p {
        lemma_last_k_open_from(s, p, m - 1);
    }
}

/// The second pass over segments it leaves alone and then calibration blocks.
proof fn lemma_k_fields_blocks(
    tables: Map<Seq<char>, Map<i32, CalibrationModel>>,
    fid: Seq<char>,
    q: Seq<Seq<char>>,
    name: Seq<char>,
    cals: Map<Seq<char>, CalibrationModel>,
    order: Seq<Seq<char>>,
)
    requires
        k_fields(tables, fid, q) == (KFields { calibrations: Map::empty(), error: false }),
        name_safe(name),
        forall|i: int|
            0 <= i < order.len() ==> cals.contains_key(#[trigger] order[i]) && calibration_ready(
                fid,
                (order[i], cals[order[i]]),
                tables,
            ),
    ensures
        k_fields(tables, fid, q + block_bodies(escaped(name), cals, order)) == (KFields {
            calibrations: set_all(cals, order),
            error: false,
        }),
    decreases order.len(),
{
    let ne = escaped(name);
    if order.len() == 0 {
        assert(q + block_bodies(ne, cals, order) =~= q);
    } else {
        let o1 = order.drop_last();
        assert forall|i: int| 0 <= i < o1.len() implies cals.contains_key(#[trigger] o1[i]) && calibration_ready(
            fid,
            (o1[i], cals[o1[i]]),
            tables,
        ) by {
            assert(o1[i] == order[i]);
        }
        lemma_k_fields_blocks(tables, fid, q, name, cals, o1);
        let all = q + block_bodies(ne, cals, order);
        assert(all.drop_last() =~= q + block_bodies(ne, cals, o1));
        assert(order[order.len() - 1] == order.last());
        assert(all.last() == block_body(ne, order.last(), cals[order.last()]));
        lemma_k_block(tables, fid, k_fields(tables, fid, q + block_bodies(ne, cals, o1)), name, (order.last(), cals[order.last()]));
        assert(k_fields(tables, fid, all) == k_step(
            tables,
            fid,
            k_fields(tables, fid, all.drop_last()),
            all.last(),
        ));
    }
}

/// A `NAME=value` segment: where the first pass splits it, and that it holds no
/// separator and no `(`.
proof fn lemma_field_segment(nm: Seq<char>, v: Seq<char>)
    requires
        nm.len() >= 1,
        forall|i: int| 0 <= i < nm.len() ==> nm[i] != '=' && nm[i] != '(' && !is_separator(#[trigger] nm[i]),
        field_safe(v),
    ensures
        split_once(nm + seq!['='] + v, '=') == Some((nm, v)),
        !(nm + seq!['='] + v).contains('('),
        (nm + seq!['='] + v).contains('='),
        forall|i: int| 0 <= i < (nm + seq!['='] + v).len() ==> !is_separator(#[trigger] (nm + seq!['='] + v)[i]),
{
    let seg = nm + seq!['='] + v;
    assert forall|j: int| 0 <= j < nm.len() implies seg[j] != '=' by {
        assert(seg[j] == nm[j]);
    }
    lemma_find_char(seg, '=', nm.len() as int);
    assert(seg.take(nm.len() as int) =~= nm);
    assert(seg.skip(nm.len() as int + 1) =~= v);
    assert forall|i: int| 0 <= i < seg.len() implies seg[i] != '(' && !is_separator(#[trigger] seg[i]) by {
        if i < nm.len() {
            assert(seg[i] == nm[i]);
        } else if i > nm.len() {
            assert(seg[i] == v[i - nm.len() - 1]);
        }
    }
    assert(seg[nm.len() as int] == '=');
}

proof fn lemma_digits_field_safe(n: nat)
    ensures
        field_safe(decimal(n)),
{
    lemma_decimal_digits(n);
    assert forall|i: int| 0 <= i < decimal(n).len() implies !is_separator(#[trigger] decimal(n)[i])
        && decimal(n)[i] != '(' by {
        assert(digit_value(decimal(n)[i], 10) is Some);
    }
}

/// The segments a descriptor's fixed fields split into, in order.
pub open spec fn field_segments(f: FilamentInfoModel, id: Seq<char>) -> Seq<Seq<char>> {
    seq![
        seq!['V', '1'],
        seq!['I', 'D'] + seq!['='] + id,
        seq!['M'] + seq!['='] + f.tray_type,
        seq!['C'] + seq!['='] + f.tray_color,
        seq!['N', 'N'] + seq!['='] + decimal(f.nozzle_temp_min as nat),
        seq!['N', 'X'] + seq!['='] + decimal(f.nozzle_temp_max as nat),
    ]
}

pub open spec fn code_segment(f: FilamentInfoModel) -> Seq<char> {
    seq!['F', 'I'] + seq!['='] + f.tray_info_idx
}

/// The segments of a whole descriptor.
pub open spec fn descriptor_segments(
    f: FilamentInfoModel,
    name: Seq<char>,
    order: Seq<Seq<char>>,
    id: Seq<char>,
) -> Seq<Seq<char>> {
    field_segments(f, id) + block_bodies(escaped(name), f.calibrations, order) + seq![code_segment(f)]
}

proof fn lemma_field_segments_facts(f: FilamentInfoModel, id: Seq<char>)
    requires
        field_safe(id),
        field_safe(f.tray_type),
        field_safe(f.tray_color),
        field_safe(f.tray_info_idx),
    ensures
        forall|i: int| 0 <= i < 6 ==> k_inert(#[trigger] field_segments(f, id)[i]),
        k_inert(code_segment(f)),
        forall|i: int, j: int| 0 <= i < 6 && 0 <= j < field_segments(f, id)[i].len() ==> !is_separator(#[trigger] field_segments(f, id)[i][j]),
        forall|j: int| 0 <= j < code_segment(f).len() ==> !is_separator(#[trigger] code_segment(f)[j]),
{
    reveal_strlit("V1");
    lemma_digits_field_safe(f.nozzle_temp_min as nat);
    lemma_digits_field_safe(f.nozzle_temp_max as nat);
    lemma_field_segment(seq!['I', 'D'], id);
    lemma_field_segment(seq!['M'], f.tray_type);
    lemma_field_segment(seq!['C'], f.tray_color);
    lemma_field_segment(seq!['N', 'N'], decimal(f.nozzle_temp_min as nat));
    lemma_field_segment(seq!['N', 'X'], decimal(f.nozzle_temp_max as nat));
    lemma_field_segment(seq!['F', 'I'], f.tray_info_idx);
    let a1 = seq!['V', '1'];
    lemma_no_open_paren(a1, a1.len() as int);
    lemma_find_char(a1, '=', 2);
    assert(!a1.contains('(')) by {
        if a1.contains('(') {
            let j = choose|j: int| 0 <= j < a1.len() && a1[j] == '(';
        }
    }
}

/// The descriptor of a filament starts with the origin, and its rest splits into
/// the field segments, one per calibration block, and the filament code.
proof fn lemma_round_trip_segments(
    f: FilamentInfoModel,
    name: Seq<char>,
    tables: Map<Seq<char>, Map<i32, CalibrationModel>>,
    order: Seq<Seq<char>>,
    id: Seq<char>,
)
    requires
        round_trip_ready(f, name, tables),
        key_order(order, f.calibrations),
        field_safe(id),
    ensures
        starts_with(encoded_with_id(f, name, order, id), prefix()),
        segments(encoded_with_id(f, name, order, id).skip(prefix().len() as int)) == descriptor_segments(
            f,
            name,
            order,
            id,
        ),
{
    reveal_strlit("https://info.filament3d.org/");
    reveal_strlit("V1?ID=");
    reveal_strlit("$tag-id$");
    reveal_strlit("&M=");
    reveal_strlit("&C=");
    reveal_strlit("&NN=");
    reveal_strlit("&NX=");
    reveal_strlit("&FI=");
    let ne = escaped(name);
    let cals = f.calibrations;
    let fs = field_segments(f, id);
    let a7 = code_segment(f);
    let x1 = fs[0] + seq!['?'] + fs[1];
    let x2 = x1 + seq!['&'] + fs[2];
    let x3 = x2 + seq!['&'] + fs[3];
    let x4 = x3 + seq!['&'] + fs[4];
    let x5 = x4 + seq!['&'] + fs[5];
    let x6 = x5 + calibration_blocks(ne, cals, order);
    let enc = encoded_with_id(f, name, order, id);
    assert(enc =~= prefix() + (x6 + seq!['&'] + a7));
    assert(enc.subrange(0, prefix().len() as int) =~= prefix());
    assert(enc.skip(prefix().len() as int) =~= x6 + seq!['&'] + a7);
    lemma_field_segments_facts(f, id);
    assert forall|i: int| 0 <= i < 6 implies segments(#[trigger] fs[i]) == seq![fs[i]] by {
        lemma_segments_single(fs[i]);
    }
    lemma_segments_single(a7);
    lemma_segments_concat(fs[0], '?', fs[1]);
    lemma_segments_concat(x1, '&', fs[2]);
    lemma_segments_concat(x2, '&', fs[3]);
    lemma_segments_concat(x3, '&', fs[4]);
    lemma_segments_concat(x4, '&', fs[5]);
    lemma_name_part(name);
    assert forall|i: int| 0 <= i < order.len() implies cals.contains_key(#[trigger] order[i]) && order[i].len() >= 3 by {
        assert(order.contains(order[i]));
        assert(calibration_ready(f.tray_info_idx, (order[i], cals[order[i]]), tables));
    }
    assert forall|i: int, j: int|
        0 <= i < order.len() && 0 <= j < block_body(ne, order[i], cals[order[i]]).len() implies !is_separator(
            #[trigger] block_body(ne, order[i], cals[order[i]])[j],
        ) by {
        assert(order.contains(order[i]));
        assert(calibration_ready(f.tray_info_idx, (order[i], cals[order[i]]), tables));
        lemma_body_chars(ne, order[i], cals[order[i]], j);
    }
    lemma_segments_blocks(x5, ne, cals, order);
    lemma_segments_concat(x6, '&', a7);
    assert(seq![fs[0]] + seq![fs[1]] + seq![fs[2]] + seq![fs[3]] + seq![fs[4]] + seq![fs[5]] =~= fs);
    assert(segments(x6 + seq!['&'] + a7) =~= descriptor_segments(f, name, order, id));
}

/// The first pass over a descriptor's segments finds every field once.
#[verifier::rlimit(40)]
proof fn lemma_round_trip_flat(
    f: FilamentInfoModel,
    name: Seq<char>,
    tables: Map<Seq<char>, Map<i32, CalibrationModel>>,
    order: Seq<Seq<char>>,
    id: Seq<char>,
)
    requires
        round_trip_ready(f, name, tables),
        key_order(order, f.calibrations),
        field_safe(id),
    ensures
        flat_fields(descriptor_segments(f, name, order, id)) == (FlatFields {
            v1: true,
            id: true,
            material: Some(f.tray_type),
            color: Some(f.tray_color),
            temp_min: Some(f.nozzle_temp_min),
            temp_max: Some(f.nozzle_temp_max),
            filament_code: Some(f.tray_info_idx),
            error: false,
        }),
{
    reveal_strlit("V1");
    reveal_strlit("ID");
    reveal_strlit("M");
    reveal_strlit("C");
    reveal_strlit("NN");
    reveal_strlit("NX");
    reveal_strlit("FI");
    let ne = escaped(name);
    let cals = f.calibrations;
    let p = field_segments(f, id);
    let bodies = block_bodies(ne, cals, order);
    let segs = descriptor_segments(f, name, order, id);
    lemma_digits_field_safe(f.nozzle_temp_min as nat);
    lemma_digits_field_safe(f.nozzle_temp_max as nat);
    lemma_field_segment(seq!['I', 'D'], id);
    lemma_field_segment(seq!['M'], f.tray_type);
    lemma_field_segment(seq!['C'], f.tray_color);
    lemma_field_segment(seq!['N', 'N'], decimal(f.nozzle_temp_min as nat));
    lemma_field_segment(seq!['N', 'X'], decimal(f.nozzle_temp_max as nat));
    lemma_field_segment(seq!['F', 'I'], f.tray_info_idx);
    lemma_name_part(name);
    assert forall|i: int| 0 <= i < bodies.len() implies flat_inert(#[trigger] bodies[i]) by {
        let b = block_body(ne, order[i], cals[order[i]]);
        assert(bodies[i] == b);
        assert(order.contains(order[i]));
        assert(calibration_ready(f.tray_info_idx, (order[i], cals[order[i]]), tables));
        assert(seq!['K', order[i][2]][1] == order[i][2]);
        assert forall|j: int| 0 <= j < ne.len() + 3 implies b[j] != '=' by {
            if j < ne.len() {
                assert(b[j] == ne[j]);
                assert(ne.contains(ne[j]));
            }
        }
        lemma_find_char(b, '=', ne.len() as int + 3);
    }
    lemma_flat_fields_inert(p, bodies);
    assert(segs.drop_last() =~= p + bodies);
    assert(segs.last() == code_segment(f));
    assert(p[0] =~= "V1"@);
    assert(seq!['I', 'D'] =~= "ID"@);
    assert(seq!['M'] =~= "M"@);
    assert(seq!['C'] =~= "C"@);
    assert(seq!['N', 'N'] =~= "NN"@);
    assert(seq!['N', 'X'] =~= "NX"@);
    assert(seq!['F', 'I'] =~= "FI"@);
    lemma_parse_decimal(f.nozzle_temp_min);
    lemma_parse_decimal(f.nozzle_temp_max);
    let q1 = seq![p[0]];
    let q2 = q1.push(p[1]);
    let q3 = q2.push(p[2]);
    let q4 = q3.push(p[3]);
    let q5 = q4.push(p[4]);
    assert(q1.drop_last() =~= Seq::<Seq<char>>::empty());
    assert(q5.push(p[5]) =~= p);
    let s1 = FlatFields { v1: true, ..no_fields() };
    let s2 = FlatFields { id: true, ..s1 };
    let s3 = FlatFields { material: Some(f.tray_type), ..s2 };
    let s4 = FlatFields { color: Some(f.tray_color), ..s3 };
    let s5 = FlatFields { temp_min: Some(f.nozzle_temp_min), ..s4 };
    let s6 = FlatFields { temp_max: Some(f.nozzle_temp_max), ..s5 };
    assert(flat_fields(q1) == s1) by {
        assert(q1.last() == p[0]);
        assert(flat_fields(q1.drop_last()) == no_fields());
        assert(flat_fields(q1) == flat_step(flat_fields(q1.drop_last()), q1.last()));
    }
    assert(p[1] != "V1"@);
    assert(flat_fields(q2) == s2) by {
        assert(q2.drop_last() == q1);
    }
    assert(p[2] != "V1"@);
    assert(flat_fields(q3) == s3) by {
        assert(q3.drop_last() == q2);
    }
    assert(p[3] != "V1"@);
    assert(flat_fields(q4) == s4) by {
        assert(q4.drop_last() == q3);
    }
    assert(p[4] != "V1"@);
    assert(flat_fields(q5) == s5) by {
        assert(q5.drop_last() == q4);
    }
    assert(p[5] != "V1"@);
    assert(flat_fields(p) == s6) by {
        assert(p.drop_last() == q5);
    }
    assert(code_segment(f) != "V1"@);
}

/// The second pass over a descriptor's segments collects its calibrations.
proof fn lemma_round_trip_k(
    f: FilamentInfoModel,
    name: Seq<char>,
    tables: Map<Seq<char>, Map<i32, CalibrationModel>>,
    order: Seq<Seq<char>>,
    id: Seq<char>,
)
    requires
        round_trip_ready(f, name, tables),
        key_order(order, f.calibrations),
        field_safe(id),
    ensures
        k_fields(tables, f.tray_info_idx, descriptor_segments(f, name, order, id)) == (KFields {
            calibrations: normalized_info(f).calibrations,
            error: false,
        }),
{
    let fi = f.tray_info_idx;
    let p = field_segments(f, id);
    let bodies = block_bodies(escaped(name), f.calibrations, order);
    let segs = descriptor_segments(f, name, order, id);
    lemma_field_segments_facts(f, id);
    let empty = KFields { calibrations: Map::empty(), error: false };
    assert forall|i: int| 0 <= i < 6 implies #[trigger] k_step(tables, fi, empty, p[i]) == empty by {
        lemma_k_inert(tables, fi, empty, p[i]);
    }
    let q1 = seq![p[0]];
    let q2 = q1.push(p[1]);
    let q3 = q2.push(p[2]);
    let q4 = q3.push(p[3]);
    let q5 = q4.push(p[4]);
    assert(q1.drop_last() =~= Seq::<Seq<char>>::empty());
    assert(q5.push(p[5]) =~= p);
    assert(k_fields(tables, fi, q1) == empty) by {
        assert(q1.last() == p[0]);
        assert(k_fields(tables, fi, q1.drop_last()) == empty);
        assert(k_fields(tables, fi, q1) == k_step(tables, fi, k_fields(tables, fi, q1.drop_last()), q1.last()));
    }
    assert(k_fields(tables, fi, q2) == empty) by {
        assert(q2.drop_last() == q1);
    }
    assert(k_fields(tables, fi, q3) == empty) by {
        assert(q3.drop_last() == q2);
    }
    assert(k_fields(tables, fi, q4) == empty) by {
        assert(q4.drop_last() == q3);
    }
    assert(k_fields(tables, fi, q5) == empty) by {
        assert(q5.drop_last() == q4);
    }
    assert(k_fields(tables, fi, p) == empty) by {
        assert(p.drop_last() == q5);
    }
    assert forall|i: int| 0 <= i < order.len() implies f.calibrations.contains_key(#[trigger] order[i])
        && calibration_ready(fi, (order[i], f.calibrations[order[i]]), tables) by {
        assert(order.contains(order[i]));
    }
    lemma_k_fields_blocks(tables, fi, p, name, f.calibrations, order);
    assert(segs.drop_last() =~= p + bodies);
    lemma_k_inert(tables, fi, k_fields(tables, fi, p + bodies), code_segment(f));
    lemma_set_all(f.calibrations, order);
    assert(set_all(f.calibrations, order) =~= normalized_info(f).calibrations);
}

/// Round trip: the descriptor of a filament, with its calibration blocks in any order
/// of its diameters, decodes back to the same filament up to trailing zeros of each k
/// (and the coefficient text, which is not carried), when its fields are free of the
/// descriptor's delimiters and the printer's tables resolve each of its calibrations.
pub proof fn lemma_descriptor_round_trip(
    f: FilamentInfoModel,
    name: Seq<char>,
    tables: Map<Seq<char>, Map<i32, CalibrationModel>>,
    order: Seq<Seq<char>>,
)
    requires
        round_trip_ready(f, name, tables),
        key_order(order, f.calibrations),
    ensures
        decoded(encoded(f, name, order), tables) == Ok::<FilamentInfoModel, crate::descriptor::Error>(normalized_info(f)),
{
    let tag = seq!['$', 't', 'a', 'g', '-', 'i', 'd', '$'];
    reveal_strlit("$tag-id$");
    assert("$tag-id$"@ =~= tag);
    assert(field_safe(tag));
    lemma_written_round_trip(f, name, tables, order, tag);
}

/// Round trip with the tag's id in place: the descriptor written with an id text free of
/// separators and `(` decodes back to the filament, its calibrations normalized.
pub proof fn lemma_written_round_trip(
    f: FilamentInfoModel,
    name: Seq<char>,
    tables: Map<Seq<char>, Map<i32, CalibrationModel>>,
    order: Seq<Seq<char>>,
    id: Seq<char>,
)
    requires
        round_trip_ready(f, name, tables),
        key_order(order, f.calibrations),
        field_safe(id),
    ensures
        decoded(encoded_with_id(f, name, order, id), tables) == Ok::<
            FilamentInfoModel,
            crate::descriptor::Error,
        >(normalized_info(f)),
{
    lemma_round_trip_segments(f, name, tables, order, id);
    lemma_round_trip_flat(f, name, tables, order, id);
    lemma_round_trip_k(f, name, tables, order, id);
}

/// Text free of `c` stays free of it when joined.
proof fn lemma_concat_free(a: Seq<char>, b: Seq<char>, c: char)
    requires
        !a.contains(c),
        !b.contains(c),
    ensures
        !(a + b).contains(c),
{
    assert forall|i: int| 0 <= i < (a + b).len() implies (a + b)[i] != c by {
        if i < a.len() {
            assert((a + b)[i] == a[i]);
            assert(a.contains(a[i]));
        } else {
            assert((a + b)[i] == b[i - a.len()]);
            assert(b.contains(b[i - a.len()]));
        }
    }
}

/// Replacing the placeholder passes over text that holds no `$`.
proof fn lemma_replace_skips(x: Seq<char>, y: Seq<char>, r: Seq<char>)
    requires
        !x.contains('$'),
    ensures
        replace_all(x + y, "$tag-id$"@, r) == x + replace_all(y, "$tag-id$"@, r),
    decreases x.len(),
{
    reveal_strlit("$tag-id$");
    let p = "$tag-id$"@;
    if x.len() == 0 {
        assert(x + y =~= y);
        assert(x + replace_all(y, p, r) =~= replace_all(y, p, r));
    } else {
        let s = x + y;
        assert(s[0] == x[0]);
        assert(x.contains(x[0]) || x[0] != '$');
        if s.len() >= p.len() {
            assert(s.take(p.len() as int)[0] != p[0]);
        }
        assert(!x.drop_first().contains('$')) by {
            if x.drop_first().contains('$') {
                let j = choose|j: int| 0 <= j < x.drop_first().len() && x.drop_first()[j] == '$';
                assert(x[j + 1] == '$');
                assert(x.contains(x[j + 1]));
            }
        }
        lemma_replace_skips(x.drop_first(), y, r);
        assert(s.drop_first() =~= x.drop_first() + y);
        assert(seq![x[0]] + (x.drop_first() + replace_all(y, p, r)) =~= x + replace_all(y, p, r));
    }
}

/// No `$` in the fields a descriptor carries besides the tag id.
pub open spec fn placeholder_free(f: FilamentInfoModel, name: Seq<char>) -> bool {
    &&& !f.tray_type.contains('$')
    &&& !f.tray_color.contains('$')
    &&& !f.tray_info_idx.contains('$')
    &&& !name.contains('$')
    &&& forall|k: Seq<char>| f.calibrations.contains_key(k) ==> entry_free(k, #[trigger] f.calibrations[k])
}

/// No `$` in a calibration's diameter, k, setting or name.
pub open spec fn entry_free(k: Seq<char>, c: CalibrationModel) -> bool {
    !k.contains('$') && !c.k_value.contains('$') && !c.setting_id.contains('$') && !c.name.contains('$')
}

proof fn lemma_blocks_free(ne: Seq<char>, cals: Map<Seq<char>, CalibrationModel>, order: Seq<Seq<char>>)
    requires
        !ne.contains('$'),
        forall|k: Seq<char>| cals.contains_key(k) ==> entry_free(k, #[trigger] cals[k]),
    ensures
        !calibration_blocks(ne, cals, order).contains('$'),
    decreases order.len(),
{
    if order.len() > 0 {
        lemma_blocks_free(ne, cals, order.drop_last());
        let n = order.last();
        if cals.contains_key(n) && n.len() >= 3 {
            let c = cals[n];
            assert(entry_free(n, c));
            lemma_trim_zeros_prefix(c.k_value);
            let kt = trim_zeros(c.k_value);
            assert(!kt.contains('$')) by {
                if kt.contains('$') {
                    let j = choose|j: int| 0 <= j < kt.len() && kt[j] == '$';
                    assert(c.k_value[j] == '$');
                    assert(c.k_value.contains(c.k_value[j]));
                }
            }
            lemma_escaped_chars(c.name, '$');
            let b = calibration_block(ne, n, c);
            assert forall|i: int| 0 <= i < b.len() implies b[i] != '$' by {
                let l0 = 1 + ne.len();
                let l1 = l0 + 4;
                let l2 = l1 + kt.len();
                let l3 = l2 + 1 + c.setting_id.len();
                let l4 = l3 + 1 + escaped(c.name).len();
                if 1 <= i < l0 {
                    assert(b[i] == ne[i - 1]);
                    assert(ne.contains(ne[i - 1]));
                } else if i == l0 + 2 {
                    assert(b[i] == n[2]);
                    assert(n.contains(n[2]));
                } else if l1 <= i < l2 {
                    assert(b[i] == kt[i - l1]);
                    assert(kt.contains(kt[i - l1]));
                } else if l2 < i < l3 {
                    assert(b[i] == c.setting_id[i - l2 - 1]);
                    assert(c.setting_id.contains(c.setting_id[i - l2 - 1]));
                } else if l3 < i < l4 {
                    assert(b[i] == escaped(c.name)[i - l3 - 1]);
                    assert(escaped(c.name).contains(escaped(c.name)[i - l3 - 1]));
                }
            }
            lemma_concat_free(calibration_blocks(ne, cals, order.drop_last()), b, '$');
        } else {
            assert(calibration_blocks(ne, cals, order) =~= calibration_blocks(ne, cals, order.drop_last()));
        }
    }
}

proof fn lemma_digits_free(n: nat)
    ensures
        !decimal(n).contains('$'),
{
    lemma_decimal_digits(n);
    assert forall|i: int| 0 <= i < decimal(n).len() implies decimal(n)[i] != '$' by {
        assert(digit_value(decimal(n)[i], 10) is Some);
    }
}

/// Writing the tag's id into a descriptor replaces its placeholder, and only that, when
/// no other field holds a `$`.
pub proof fn lemma_id_substitution(f: FilamentInfoModel, name: Seq<char>, order: Seq<Seq<char>>, id: Seq<char>)
    requires
        placeholder_free(f, name),
    ensures
        replace_all(encoded(f, name, order), "$tag-id$"@, id) == encoded_with_id(f, name, order, id),
{
    reveal_strlit("https://info.filament3d.org/");
    reveal_strlit("V1?ID=");
    reveal_strlit("$tag-id$");
    reveal_strlit("&M=");
    reveal_strlit("&C=");
    reveal_strlit("&NN=");
    reveal_strlit("&NX=");
    reveal_strlit("&FI=");
    let p = "$tag-id$"@;
    let head = prefix() + "V1?ID="@;
    let rest = "&M="@ + f.tray_type + "&C="@ + f.tray_color + "&NN="@ + decimal(f.nozzle_temp_min as nat)
        + "&NX="@ + decimal(f.nozzle_temp_max as nat) + calibration_blocks(escaped(name), f.calibrations, order)
        + "&FI="@ + f.tray_info_idx;
    assert(encoded(f, name, order) =~= head + (p + rest));
    assert(encoded_with_id(f, name, order, id) =~= head + (id + rest));
    assert(!head.contains('$')) by {
        assert forall|i: int| 0 <= i < head.len() implies head[i] != '$' by {}
    }
    lemma_digits_free(f.nozzle_temp_min as nat);
    lemma_digits_free(f.nozzle_temp_max as nat);
    lemma_escaped_chars(name, '$');
    lemma_blocks_free(escaped(name), f.calibrations, order);
    assert(!"&M="@.contains('$') && !"&C="@.contains('$') && !"&NN="@.contains('$')
        && !"&NX="@.contains('$') && !"&FI="@.contains('$')) by {
        assert forall|i: int| 0 <= i < 4 implies "&NN="@[i] != '$' && "&NX="@[i] != '$' && "&FI="@[i] != '$' by {}
        assert forall|i: int| 0 <= i < 3 implies "&M="@[i] != '$' && "&C="@[i] != '$' by {}
    }
    let r1 = "&M="@ + f.tray_type;
    lemma_concat_free("&M="@, f.tray_type, '$');
    lemma_concat_free(r1, "&C="@, '$');
    lemma_concat_free(r1 + "&C="@, f.tray_color, '$');
    let r2 = r1 + "&C="@ + f.tray_color;
    lemma_concat_free(r2, "&NN="@, '$');
    lemma_concat_free(r2 + "&NN="@, decimal(f.nozzle_temp_min as nat), '$');
    let r3 = r2 + "&NN="@ + decimal(f.nozzle_temp_min as nat);
    lemma_concat_free(r3, "&NX="@, '$');
    lemma_concat_free(r3 + "&NX="@, decimal(f.nozzle_temp_max as nat), '$');
    let r4 = r3 + "&NX="@ + decimal(f.nozzle_temp_max as nat);
    lemma_concat_free(r4, calibration_blocks(escaped(name), f.calibrations, order), '$');
    let r5 = r4 + calibration_blocks(escaped(name), f.calibrations, order);
    lemma_concat_free(r5, "&FI="@, '$');
    lemma_concat_free(r5 + "&FI="@, f.tray_info_idx, '$');
    assert(!rest.contains('$'));
    lemma_replace_skips(head, p + rest, id);
    assert((p + rest).take(p.len() as int) =~= p);
    assert((p + rest).skip(p.len() as int) =~= rest);
    lemma_replace_skips(rest, Seq::empty(), id);
    assert(rest + Seq::<char>::empty() =~= rest);
    assert(replace_all(Seq::<char>::empty(), p, id) =~= Seq::<char>::empty());
    assert(replace_all(p + rest, p, id) == id + replace_all(rest, p, id));
}

/// Round trip as written to a tag: the descriptor with the placeholder replaced by the
/// tag's id (an id free of separators and `(`, as URL-safe base64 is) decodes back to
/// the filament, its calibrations normalized.
pub proof fn lemma_tag_round_trip(
    f: FilamentInfoModel,
    name: Seq<char>,
    tables: Map<Seq<char>, Map<i32, CalibrationModel>>,
    order: Seq<Seq<char>>,
    id: Seq<char>,
)
    requires
        round_trip_ready(f, name, tables),
        placeholder_free(f, name),
        key_order(order, f.calibrations),
        field_safe(id),
    ensures
        decoded(replace_all(encoded(f, name, order), "$tag-id$"@, id), tables) == Ok::<
            FilamentInfoModel,
            crate::descriptor::Error,
        >(normalized_info(f)),
{
    lemma_id_substitution(f, name, order, id);
    lemma_written_round_trip(f, name, tables, order, id);
}

} // verus!
