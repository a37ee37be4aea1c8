//! The three content-level decisions: whether a buffer looks binary, whether
//! it holds any bare line feed, and the conversion that expands each bare
//! line feed into a carriage-return/line-feed pair.

use vstd::prelude::*;

verus! {

/// A carriage return, 0x0d.
pub const CR: u8 = 13;

/// A line feed, 0x0a.
pub const LF: u8 = 10;

/// How many leading bytes the binary heuristic inspects.
pub const BINARY_CHECK_LIMIT: usize = 512;

/// Byte `i` of `b` is a line feed not immediately preceded by a carriage
/// return (a line feed at the very start counts).
pub open spec fn is_bare_lf(b: Seq<u8>, i: int) -> bool {
    b[i] == LF && (i == 0 || b[i - 1] != CR)
}

/// A buffer is classified binary when a null byte stands among its first
/// `BINARY_CHECK_LIMIT` bytes.
pub open spec fn is_binary_spec(b: Seq<u8>) -> bool {
    exists|i: int| 0 <= i < b.len() && i < BINARY_CHECK_LIMIT && #[trigger] b[i] == 0
}

/// A buffer needs conversion when it holds at least one bare line feed.
pub open spec fn needs_conversion_spec(b: Seq<u8>) -> bool {
    exists|i: int| 0 <= i < b.len() && #[trigger] is_bare_lf(b, i)
}

/// How many bare line feeds `b` holds; each one gains exactly one inserted
/// carriage return during conversion.
pub open spec fn bare_lf_count(b: Seq<u8>) -> nat
    decreases b.len(),
{
    if b.len() == 0 {
        0
    } else {
        bare_lf_count(b.drop_last()) + if is_bare_lf(b, b.len() - 1) { 1nat } else { 0nat }
    }
}

/// The converted buffer: each byte of `b` in order, with a carriage return
/// inserted immediately before each bare line feed. Bareness is judged
/// against `b` itself, never against already-inserted bytes.
pub open spec fn convert_spec(b: Seq<u8>) -> Seq<u8>
    decreases b.len(),
{
    if b.len() == 0 {
        Seq::empty()
    } else if is_bare_lf(b, b.len() - 1) {
        convert_spec(b.drop_last()) + seq![CR, LF]
    } else {
        convert_spec(b.drop_last()) + seq![b.last()]
    }
}

/// Reports whether `data` should be treated as a binary (non-text) buffer:
/// true exactly when a null byte stands among the first `BINARY_CHECK_LIMIT`
/// bytes. An empty buffer is never binary.
pub fn is_binary(data: &[u8]) -> (r: bool)
    ensures
        r == is_binary_spec(data@),
{
    let check_size = if data.len() < BINARY_CHECK_LIMIT {
        data.len()
    } else {
        BINARY_CHECK_LIMIT
    };
    let mut i: usize = 0;
    while i < check_size
        invariant
            i <= check_size,
            check_size <= data@.len(),
            check_size <= BINARY_CHECK_LIMIT,
            data@.len() < BINARY_CHECK_LIMIT ==> check_size == data@.len(),
            data@.len() >= BINARY_CHECK_LIMIT ==> check_size == BINARY_CHECK_LIMIT,
            forall|j: int| 0 <= j < i ==> #[trigger] data@[j] != 0,
        decreases check_size - i,
    {
        if data[i] == 0 {
            return true;
        }
        i += 1;
    }
    false
}

/// Reports whether `data` holds any bare line feed, i.e. whether conversion
/// would change it. An empty buffer never needs conversion.
pub fn needs_conversion(data: &[u8]) -> (r: bool)
    ensures
        r == needs_conversion_spec(data@),
{
    let mut i: usize = 0;
    while i < data.len()
        invariant
            i <= data@.len(),
            forall|j: int| 0 <= j < i ==> !#[trigger] is_bare_lf(data@, j),
        decreases data@.len() - i,
    {
        if data[i] == LF && (i == 0 || data[i - 1] != CR) {
            assert(is_bare_lf(data@, i as int));
            return true;
        }
        i += 1;
    }
    false
}

/// Returns `input` with a carriage return inserted immediately before each
/// bare line feed; every original byte is kept in order.
pub fn convert_line_endings(input: &[u8]) -> (output: Vec<u8>)
    ensures
        output@ == convert_spec(input@),
{
    let mut output: Vec<u8> = Vec::new();
    let mut i: usize = 0;
    while i < input.len()
        invariant
            i <= input@.len(),
            output@ == convert_spec(input@.take(i as int)),
        decreases input@.len() - i,
    {
        proof {
            lemma_convert_spec_step(input@, i as int);
        }
        if input[i] == LF && (i == 0 || input[i - 1] != CR) {
            output.push(CR);
        }
        output.push(input[i]);
        i += 1;
    }
    proof {
        assert(input@.take(input@.len() as int) =~= input@);
    }
    output
}

/// A nonempty buffer and its conversion end in the same byte.
proof fn lemma_convert_spec_last(b: Seq<u8>)
    requires
        b.len() > 0,
    ensures
        convert_spec(b).len() > 0,
        convert_spec(b).last() == b.last(),
{
}

/// Conversion leaves no bare line feed behind: a converted buffer never
/// needs conversion again.
pub proof fn lemma_convert_no_bare_lf(b: Seq<u8>)
    ensures
        !needs_conversion_spec(convert_spec(b)),
    decreases b.len(),
{
    let c = convert_spec(b);
    if b.len() > 0 {
        let n = b.len() - 1;
        let p = b.drop_last();
        let c0 = convert_spec(p);
        lemma_convert_no_bare_lf(p);
        assert forall|k: int| 0 <= k < c.len() implies !is_bare_lf(c, k) by {
            if k < c0.len() {
                assert(c[k] == c0[k]);
                assert(k > 0 ==> c[k - 1] == c0[k - 1]);
                assert(!is_bare_lf(c0, k));
            } else if is_bare_lf(b, n) {
                if k == c0.len() {
                    assert(c[k] == CR);
                } else {
                    assert(c[k] == LF && c[k - 1] == CR);
                }
            } else {
                assert(k == c0.len());
                assert(c[k] == b.last());
                if b.last() == LF {
                    assert(b.len() >= 2 && b[n - 1] == CR);
                    lemma_convert_spec_last(p);
                    assert(c[k - 1] == c0.last());
                    assert(p.last() == b[n - 1]);
                }
            }
        }
    }
}

/// A buffer with no bare line feed is a fixed point of conversion.
pub proof fn lemma_convert_fixed_point(b: Seq<u8>)
    requires
        !needs_conversion_spec(b),
    ensures
        convert_spec(b) == b,
    decreases b.len(),
{
    if b.len() == 0 {
        assert(convert_spec(b) =~= b);
    } else {
        let n = b.len() - 1;
        let p = b.drop_last();
        assert(!is_bare_lf(b, n));
        assert forall|i: int| 0 <= i < p.len() implies !is_bare_lf(p, i) by {
            assert(p[i] == b[i]);
            assert(i > 0 ==> p[i - 1] == b[i - 1]);
            assert(!is_bare_lf(b, i));
        }
        lemma_convert_fixed_point(p);
        assert(convert_spec(b) =~= b);
    }
}

/// One pass suffices: converting a converted buffer changes nothing, and the
/// detector confirms that no further conversion is needed.
pub proof fn lemma_convert_idempotent(b: Seq<u8>)
    ensures
        !needs_conversion_spec(convert_spec(b)),
        convert_spec(convert_spec(b)) == convert_spec(b),
{
    lemma_convert_no_bare_lf(b);
    lemma_convert_fixed_point(convert_spec(b));
}

/// Conversion grows a buffer by exactly one byte per bare line feed.
pub proof fn lemma_convert_len(b: Seq<u8>)
    ensures
        convert_spec(b).len() == b.len() + bare_lf_count(b),
    decreases b.len(),
{
    if b.len() > 0 {
        lemma_convert_len(b.drop_last());
    }
}

/// Where byte `i` of the input lands in the converted output: shifted right
/// by one slot for each bare line feed at or before it.
pub open spec fn out_pos(b: Seq<u8>, i: int) -> int {
    i + bare_lf_count(b.take(i + 1))
}

/// Extending a prefix by one byte raises its bare-line-feed count by one
/// exactly when that byte is a bare line feed of the whole buffer.
proof fn lemma_count_step(b: Seq<u8>, j: int)
    requires
        0 <= j < b.len(),
    ensures
        bare_lf_count(b.take(j + 1)) == bare_lf_count(b.take(j)) + if is_bare_lf(b, j) {
            1int
        } else {
            0int
        },
{
    let t = b.take(j + 1);
    assert(t.drop_last() =~= b.take(j));
    assert(t[j] == b[j]);
    assert(j > 0 ==> t[j - 1] == b[j - 1]);
}

/// The images of input positions keep their order: an earlier input byte
/// lands strictly earlier in the output.
proof fn lemma_out_pos_increasing(b: Seq<u8>, i: int, j: int)
    requires
        0 <= i < j < b.len(),
    ensures
        out_pos(b, i) < out_pos(b, j),
    decreases j - i,
{
    lemma_count_step(b, j);
    if i < j - 1 {
        lemma_out_pos_increasing(b, i, j - 1);
    }
}

/// Conversion removes and reorders nothing. Byte `i` of the input reappears
/// unchanged at `out_pos(b, i)`; those positions strictly increase, so the
/// original bytes keep their relative order; the output holds exactly one
/// extra byte per bare line feed; and each extra byte is a carriage return
/// standing immediately before the image of its bare line feed.
pub proof fn lemma_convert_insert_only(b: Seq<u8>)
    ensures
        convert_spec(b).len() == b.len() + bare_lf_count(b),
        forall|i: int| #![trigger out_pos(b, i)]
            0 <= i < b.len() ==> 0 <= out_pos(b, i) < convert_spec(b).len(),
        forall|i: int| #![trigger out_pos(b, i)]
            0 <= i < b.len() ==> convert_spec(b)[out_pos(b, i)] == b[i],
        forall|i: int, j: int| #![trigger out_pos(b, i), out_pos(b, j)]
            0 <= i < j < b.len() ==> out_pos(b, i) < out_pos(b, j),
        forall|i: int| #![trigger out_pos(b, i)]
            0 <= i < b.len() && is_bare_lf(b, i) ==> 1 <= out_pos(b, i)
                && convert_spec(b)[out_pos(b, i) - 1] == CR,
    decreases b.len(),
{
    lemma_convert_len(b);
    if b.len() > 0 {
        let n = b.len() - 1;
        let p = b.drop_last();
        let c = convert_spec(b);
        let c0 = convert_spec(p);
        lemma_convert_insert_only(p);
        lemma_convert_len(p);
        assert(b.take(n + 1) =~= b);
        assert forall|i: int| 0 <= i < b.len() implies 0 <= out_pos(b, i) < c.len()
            && c[out_pos(b, i)] == b[i]
            && (is_bare_lf(b, i) ==> 1 <= out_pos(b, i) && c[out_pos(b, i) - 1] == CR) by {
            if i < n {
                assert(b.take(i + 1) =~= p.take(i + 1));
                assert(out_pos(b, i) == out_pos(p, i));
                assert(c[out_pos(p, i)] == c0[out_pos(p, i)]);
                assert(p[i] == b[i]);
                assert(i > 0 ==> p[i - 1] == b[i - 1]);
                if is_bare_lf(b, i) {
                    assert(is_bare_lf(p, i));
                    assert(c[out_pos(p, i) - 1] == c0[out_pos(p, i) - 1]);
                }
            } else {
                lemma_count_step(b, n);
                assert(b.take(n) =~= p);
                if is_bare_lf(b, n) {
                    assert(out_pos(b, n) == c0.len() + 1);
                    assert(c[c0.len() as int + 1] == LF);
                    assert(c[c0.len() as int] == CR);
                    assert(b[n] == LF);
                } else {
                    assert(out_pos(b, n) == c0.len());
                    assert(c[c0.len() as int] == b[n]);
                }
            }
        }
        assert forall|i: int, j: int| #![trigger out_pos(b, i), out_pos(b, j)]
            0 <= i < j < b.len() implies out_pos(b, i) < out_pos(b, j) by {
            lemma_out_pos_increasing(b, i, j);
        }
    }
}

/// The binary heuristic reads only the first `BINARY_CHECK_LIMIT` bytes: a
/// buffer no longer than that with no null byte is never classified binary,
/// and any buffer with a null byte inside that prefix always is.
pub proof fn lemma_binary_heuristic(b: Seq<u8>)
    ensures
        b.len() <= BINARY_CHECK_LIMIT && (forall|i: int| 0 <= i < b.len() ==> #[trigger] b[i] != 0)
            ==> !is_binary_spec(b),
        (exists|i: int| 0 <= i < b.len() && i < BINARY_CHECK_LIMIT && #[trigger] b[i] == 0)
            ==> is_binary_spec(b),
{
}

/// One unfolding of `convert_spec` along a prefix: converting the first
/// `i + 1` bytes extends the conversion of the first `i` bytes by either the
/// inserted pair or the single original byte.
proof fn lemma_convert_spec_step(b: Seq<u8>, i: int)
    requires
        0 <= i < b.len(),
    ensures
        is_bare_lf(b, i) == is_bare_lf(b.take(i + 1), i),
        is_bare_lf(b, i) ==> convert_spec(b.take(i + 1)) == convert_spec(b.take(i)) + seq![CR, LF],
        !is_bare_lf(b, i) ==> convert_spec(b.take(i + 1)) == convert_spec(b.take(i)) + seq![b[i]],
{
    let t = b.take(i + 1);
    assert(t.drop_last() =~= b.take(i));
    assert(t[i] == b[i]);
    assert(i > 0 ==> t[i - 1] == b[i - 1]);
}

} // verus!
