//! Sample values of an integer preview for one-line summaries.
use vstd::prelude::*;

use crate::dispatch::DecodePreview;
use crate::text::{decimal, join_strings, join_with, owned, push_decimal, push_str};
use crate::types::{strs, ElementDtype};

verus! {

broadcast use vstd::string::group_string_axioms;

/// Elements a one-line summary samples from a preview.
pub const PREVIEW_SAMPLE: usize = 6;

/// Value of an integer element from its little-endian bit pattern (the low bits of the
/// element's width; signed types in two's complement).
pub open spec fn spec_int_element(dtype: ElementDtype, bits: u64) -> int {
    match dtype {
        ElementDtype::U8 => (bits % 0x100) as int,
        ElementDtype::U16 => (bits % 0x1_0000) as int,
        ElementDtype::U32 => (bits % 0x1_0000_0000) as int,
        ElementDtype::U64 => bits as int,
        ElementDtype::I16 => {
            let u = (bits % 0x1_0000) as int;
            if u >= 0x8000 { u - 0x1_0000 } else { u }
        },
        ElementDtype::I32 => {
            let u = (bits % 0x1_0000_0000) as int;
            if u >= 0x8000_0000 { u - 0x1_0000_0000 } else { u }
        },
        _ => {
            let u = bits as int;
            if u >= 0x8000_0000_0000_0000 { u - 0x1_0000_0000_0000_0000 } else { u }
        },
    }
}

/// Decimal text of an integer, with `-` for a negative one.
pub open spec fn spec_int_text(v: int) -> Seq<char> {
    if v < 0 {
        "-"@ + decimal((-v) as nat)
    } else {
        decimal(v as nat)
    }
}

/// Integer element types (the float ones are formatted by the host).
pub open spec fn is_integer_dtype(d: ElementDtype) -> bool {
    d == ElementDtype::I32 || d == ElementDtype::I64 || d == ElementDtype::U8 || d
        == ElementDtype::U16 || d == ElementDtype::I16 || d == ElementDtype::U32 || d
        == ElementDtype::U64
}

/// `[v0,v1,…]` of the first [`PREVIEW_SAMPLE`] values of an integer preview; `None` for a
/// float preview.
pub open spec fn spec_integer_preview_samples(p: &DecodePreview) -> Option<Seq<char>> {
    if is_integer_dtype(p.dtype) {
        let n = if p.bits@.len() < PREVIEW_SAMPLE { p.bits@.len() as int } else { PREVIEW_SAMPLE as int };
        Some(
            "["@ + join_with(
                Seq::new(n as nat, |i: int| spec_int_text(spec_int_element(p.dtype, p.bits@[i]))),
                ","@,
            ) + "]"@,
        )
    } else {
        None
    }
}

/// Decimal text of one integer element.
fn int_element_text(dtype: ElementDtype, bits: u64) -> (r: String)
    requires
        is_integer_dtype(dtype),
    ensures
        r@ == spec_int_text(spec_int_element(dtype, bits)),
{
    let (u, width_mask_top, signed): (u64, u64, bool) = match dtype {
        ElementDtype::U8 => (bits % 0x100, 0, false),
        ElementDtype::U16 => (bits % 0x1_0000, 0, false),
        ElementDtype::U32 => (bits % 0x1_0000_0000, 0, false),
        ElementDtype::U64 => (bits, 0, false),
        ElementDtype::I16 => (bits % 0x1_0000, 0x8000, true),
        ElementDtype::I32 => (bits % 0x1_0000_0000, 0x8000_0000, true),
        _ => (bits, 0x8000_0000_0000_0000, true),
    };
    let mut out = String::new();
    if signed && u >= width_mask_top {
        // the magnitude 2 * top - u, computed without overflow
        let mag: u64 = width_mask_top - (u - width_mask_top);
        proof {
            assert(spec_int_element(dtype, bits) == u - 2 * width_mask_top);
        }
        push_str(&mut out, "-");
        push_decimal(&mut out, mag);
    } else {
        push_decimal(&mut out, u);
    }
    out
}

/// `[v0,v1,…]` of the first [`PREVIEW_SAMPLE`] values of an integer preview (signed types in
/// two's complement); `None` for a float preview, whose values the host formats.
pub fn integer_preview_samples(p: &DecodePreview) -> (r: Option<String>)
    ensures
        match r {
            Some(t) => spec_integer_preview_samples(p) == Some(t@),
            None => spec_integer_preview_samples(p) is None,
        },
{
    let integer = match p.dtype {
        ElementDtype::I32 | ElementDtype::I64 | ElementDtype::U8 | ElementDtype::U16
        | ElementDtype::I16 | ElementDtype::U32 | ElementDtype::U64 => true,
        _ => false,
    };
    if !integer {
        return None;
    }
    let n = if p.bits.len() < PREVIEW_SAMPLE {
        p.bits.len()
    } else {
        PREVIEW_SAMPLE
    };
    let ghost want = Seq::new(
        n as nat,
        |i: int| spec_int_text(spec_int_element(p.dtype, p.bits@[i])),
    );
    let mut parts: Vec<String> = Vec::new();
    let mut i: usize = 0;
    while i < n
        invariant
            0 <= i <= n,
            n <= p.bits@.len(),
            is_integer_dtype(p.dtype),
            want == Seq::new(n as nat, |k: int| spec_int_text(spec_int_element(p.dtype, p.bits@[k]))),
            strs(parts@) == want.take(i as int),
        decreases n - i,
    {
        let t = int_element_text(p.dtype, p.bits[i]);
        let ghost before = parts@;
        parts.push(t);
        assert(strs(parts@) =~= strs(before).push(want[i as int]));
        assert(want.take(i + 1) =~= want.take(i as int).push(want[i as int]));
        i += 1;
    }
    assert(want.take(n as int) =~= want);
    let mut out = owned("[");
    let body = join_strings(&parts, ",");
    push_str(&mut out, body.as_str());
    push_str(&mut out, "]");
    Some(out)
}

} // verus!
