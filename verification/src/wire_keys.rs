//! Identification of the member names used by the wire format: each name gets a distinct
//! number, so that two names with different numbers are different texts.
use vstd::prelude::*;

use crate::document_wire::{spec_op_keys, spec_reserved_keys};

verus! {

broadcast use vstd::string::group_string_axioms;

/// Character `i` of `s` as a number (`0` past the end).
pub open spec fn key_char(s: Seq<char>, i: int) -> int {
    if 0 <= i < s.len() {
        s[i] as int
    } else {
        0
    }
}

/// Length and a few characters of `s`, packed into one number.
pub open spec fn key_fp(s: Seq<char>) -> int {
    s.len() as int * 268435456 + key_char(s, 0) * 2097152 + key_char(s, 1) * 16384 + key_char(
        s,
        2,
    ) * 128 + key_char(s, s.len() - 1)
}

/// Number of a member name of the wire format: operation keys `0..26` in key order, then
/// the other top-level keys, then nested member names; `-1` for any other text.
pub open spec fn key_id(s: Seq<char>) -> int {
    let f = key_fp(s);
    if f == 1048409837 {
        0
    } else if f == 1303998702 {
        1
    } else if f == 1035630446 {
        2
    } else if f == 1035500664 {
        3
    } else if f == 1551629044 {
        4
    } else if f == 1054374258 {
        5
    } else if f == 1048392292 {
        6
    } else if f == 2115811316 {
        7
    } else if f == 2111568177 {
        8
    } else if f == 2111568178 {
        9
    } else if f == 2889561701 {
        10
    } else if f == 2084289774 {
        11
    } else if f == 2084289766 {
        12
    } else if f == 2084353006 {
        13
    } else if f == 2084353016 {
        14
    } else if f == 1840869998 {
        15
    } else if f == 2386391269 {
        16
    } else if f == 2635758061 {
        17
    } else if f == 2648209268 {
        18
    } else if f == 2637935476 {
        19
    } else if f == 2916972148 {
        20
    } else if f == 2893806437 {
        21
    } else if f == 3162241390 {
        22
    } else if f == 2379773806 {
        23
    } else if f == 2111338340 {
        24
    } else if f == 2661069037 {
        25
    } else if f == 3986193646 {
        26
    } else if f == 2090367604 {
        27
    } else if f == 2658760302 {
        28
    } else if f == 1585198316 {
        29
    } else if f == 1593619685 {
        30
    } else if f == 2629710574 {
        31
    } else if f == 2650551022 {
        32
    } else if f == 1845328500 {
        33
    } else if f == 505413745 {
        34
    } else if f == 1280997235 {
        35
    } else if f == 1289385580 {
        36
    } else if f == 1840872036 {
        37
    } else if f == 1279145203 {
        38
    } else if f == 1279144691 {
        39
    } else if f == 1585262836 {
        40
    } else if f == 1316829168 {
        41
    } else if f == 1316827888 {
        42
    } else if f == 3195875564 {
        43
    } else if f == 2927441900 {
        44
    } else if f == 1855486324 {
        45
    } else if f == 1310227048 {
        46
    } else if f == 5330532083 {
        47
    } else if f == 5867402996 {
        48
    } else if f == 6941144819 {
        49
    } else if f == 3705402988 {
        50
    } else if f == 1821997925 {
        51
    } else {
        -1
    }
}

/// The numbers of the wire format's member names.
pub proof fn lemma_key_ids()
    ensures
        key_id("sum"@) == 0,
        key_id("mean"@) == 1,
        key_id("min"@) == 2,
        key_id("max"@) == 3,
        key_id("count"@) == 4,
        key_id("var"@) == 5,
        key_id("std"@) == 6,
        key_id("product"@) == 7,
        key_id("norm_l1"@) == 8,
        key_id("norm_l2"@) == 9,
        key_id("all_finite"@) == 10,
        key_id("any_nan"@) == 11,
        key_id("any_inf"@) == 12,
        key_id("arg_min"@) == 13,
        key_id("arg_max"@) == 14,
        key_id("median"@) == 15,
        key_id("quantile"@) == 16,
        key_id("histogram"@) == 17,
        key_id("nan_count"@) == 18,
        key_id("inf_count"@) == 19,
        key_id("null_count"@) == 20,
        key_id("covariance"@) == 21,
        key_id("correlation"@) == 22,
        key_id("nan_mean"@) == 23,
        key_id("nan_std"@) == 24,
        key_id("transform"@) == 25,
        key_id("layout_version"@) == 26,
        key_id("dataset"@) == 27,
        key_id("selection"@) == 28,
        key_id("spill"@) == 29,
        key_id("write"@) == 30,
        key_id("execution"@) == 31,
        key_id("operation"@) == 32,
        key_id("output"@) == 33,
        key_id("q"@) == 34,
        key_id("bins"@) == 35,
        key_id("fill"@) == 36,
        key_id("method"@) == 37,
        key_id("axis"@) == 38,
        key_id("axes"@) == 39,
        key_id("start"@) == 40,
        key_id("stop"@) == 41,
        key_id("step"@) == 42,
        key_id("start_label"@) == 43,
        key_id("stop_label"@) == 44,
        key_id("target"@) == 45,
        key_id("path"@) == 46,
        key_id("memory_budget_bytes"@) == 47,
        key_id("memory_budget_percent"@) == 48,
        key_id("memory_budget_percent_bps"@) == 49,
        key_id("fold_parallel"@) == 50,
        key_id("device"@) == 51,
        forall|j: int| 0 <= j < 26 ==> key_id(#[trigger] spec_op_keys()[j]) == j,
        forall|r: int| 0 <= r < 6 ==> key_id(#[trigger] spec_reserved_keys()[r]) == 26 + r,
{
    reveal_strlit("sum");
    reveal_strlit("mean");
    reveal_strlit("min");
    reveal_strlit("max");
    reveal_strlit("count");
    reveal_strlit("var");
    reveal_strlit("std");
    reveal_strlit("product");
    reveal_strlit("norm_l1");
    reveal_strlit("norm_l2");
    reveal_strlit("all_finite");
    reveal_strlit("any_nan");
    reveal_strlit("any_inf");
    reveal_strlit("arg_min");
    reveal_strlit("arg_max");
    reveal_strlit("median");
    reveal_strlit("quantile");
    reveal_strlit("histogram");
    reveal_strlit("nan_count");
    reveal_strlit("inf_count");
    reveal_strlit("null_count");
    reveal_strlit("covariance");
    reveal_strlit("correlation");
    reveal_strlit("nan_mean");
    reveal_strlit("nan_std");
    reveal_strlit("transform");
    reveal_strlit("layout_version");
    reveal_strlit("dataset");
    reveal_strlit("selection");
    reveal_strlit("spill");
    reveal_strlit("write");
    reveal_strlit("execution");
    reveal_strlit("operation");
    reveal_strlit("output");
    reveal_strlit("q");
    reveal_strlit("bins");
    reveal_strlit("fill");
    reveal_strlit("method");
    reveal_strlit("axis");
    reveal_strlit("axes");
    reveal_strlit("start");
    reveal_strlit("stop");
    reveal_strlit("step");
    reveal_strlit("start_label");
    reveal_strlit("stop_label");
    reveal_strlit("target");
    reveal_strlit("path");
    reveal_strlit("memory_budget_bytes");
    reveal_strlit("memory_budget_percent");
    reveal_strlit("memory_budget_percent_bps");
    reveal_strlit("fold_parallel");
    reveal_strlit("device");
    assert(key_id("sum"@) == 0);
    assert(key_id("mean"@) == 1);
    assert(key_id("min"@) == 2);
    assert(key_id("max"@) == 3);
    assert(key_id("count"@) == 4);
    assert(key_id("var"@) == 5);
    assert(key_id("std"@) == 6);
    assert(key_id("product"@) == 7);
    assert(key_id("norm_l1"@) == 8);
    assert(key_id("norm_l2"@) == 9);
    assert(key_id("all_finite"@) == 10);
    assert(key_id("any_nan"@) == 11);
    assert(key_id("any_inf"@) == 12);
    assert(key_id("arg_min"@) == 13);
    assert(key_id("arg_max"@) == 14);
    assert(key_id("median"@) == 15);
    assert(key_id("quantile"@) == 16);
    assert(key_id("histogram"@) == 17);
    assert(key_id("nan_count"@) == 18);
    assert(key_id("inf_count"@) == 19);
    assert(key_id("null_count"@) == 20);
    assert(key_id("covariance"@) == 21);
    assert(key_id("correlation"@) == 22);
    assert(key_id("nan_mean"@) == 23);
    assert(key_id("nan_std"@) == 24);
    assert(key_id("transform"@) == 25);
    assert(key_id("layout_version"@) == 26);
    assert(key_id("dataset"@) == 27);
    assert(key_id("selection"@) == 28);
    assert(key_id("spill"@) == 29);
    assert(key_id("write"@) == 30);
    assert(key_id("execution"@) == 31);
    assert(key_id("operation"@) == 32);
    assert(key_id("output"@) == 33);
    assert(key_id("q"@) == 34);
    assert(key_id("bins"@) == 35);
    assert(key_id("fill"@) == 36);
    assert(key_id("method"@) == 37);
    assert(key_id("axis"@) == 38);
    assert(key_id("axes"@) == 39);
    assert(key_id("start"@) == 40);
    assert(key_id("stop"@) == 41);
    assert(key_id("step"@) == 42);
    assert(key_id("start_label"@) == 43);
    assert(key_id("stop_label"@) == 44);
    assert(key_id("target"@) == 45);
    assert(key_id("path"@) == 46);
    assert(key_id("memory_budget_bytes"@) == 47);
    assert(key_id("memory_budget_percent"@) == 48);
    assert(key_id("memory_budget_percent_bps"@) == 49);
    assert(key_id("fold_parallel"@) == 50);
    assert(key_id("device"@) == 51);
    assert forall|j: int| 0 <= j < 26 implies key_id(#[trigger] spec_op_keys()[j]) == j by {
        if j == 0 {
            assert(spec_op_keys()[j] == "sum"@);
        } else if j == 1 {
            assert(spec_op_keys()[j] == "mean"@);
        } else if j == 2 {
            assert(spec_op_keys()[j] == "min"@);
        } else if j == 3 {
            assert(spec_op_keys()[j] == "max"@);
        } else if j == 4 {
            assert(spec_op_keys()[j] == "count"@);
        } else if j == 5 {
            assert(spec_op_keys()[j] == "var"@);
        } else if j == 6 {
            assert(spec_op_keys()[j] == "std"@);
        } else if j == 7 {
            assert(spec_op_keys()[j] == "product"@);
        } else if j == 8 {
            assert(spec_op_keys()[j] == "norm_l1"@);
        } else if j == 9 {
            assert(spec_op_keys()[j] == "norm_l2"@);
        } else if j == 10 {
            assert(spec_op_keys()[j] == "all_finite"@);
        } else if j == 11 {
            assert(spec_op_keys()[j] == "any_nan"@);
        } else if j == 12 {
            assert(spec_op_keys()[j] == "any_inf"@);
        } else if j == 13 {
            assert(spec_op_keys()[j] == "arg_min"@);
        } else if j == 14 {
            assert(spec_op_keys()[j] == "arg_max"@);
        } else if j == 15 {
            assert(spec_op_keys()[j] == "median"@);
        } else if j == 16 {
            assert(spec_op_keys()[j] == "quantile"@);
        } else if j == 17 {
            assert(spec_op_keys()[j] == "histogram"@);
        } else if j == 18 {
            assert(spec_op_keys()[j] == "nan_count"@);
        } else if j == 19 {
            assert(spec_op_keys()[j] == "inf_count"@);
        } else if j == 20 {
            assert(spec_op_keys()[j] == "null_count"@);
        } else if j == 21 {
            assert(spec_op_keys()[j] == "covariance"@);
        } else if j == 22 {
            assert(spec_op_keys()[j] == "correlation"@);
        } else if j == 23 {
            assert(spec_op_keys()[j] == "nan_mean"@);
        } else if j == 24 {
            assert(spec_op_keys()[j] == "nan_std"@);
        } else if j == 25 {
            assert(spec_op_keys()[j] == "transform"@);
        }
    }
    assert forall|r: int| 0 <= r < 6 implies key_id(#[trigger] spec_reserved_keys()[r]) == 26 + r by {
        if r == 0 {
            assert(spec_reserved_keys()[r] == "layout_version"@);
        } else if r == 1 {
            assert(spec_reserved_keys()[r] == "dataset"@);
        } else if r == 2 {
            assert(spec_reserved_keys()[r] == "selection"@);
        } else if r == 3 {
            assert(spec_reserved_keys()[r] == "spill"@);
        } else if r == 4 {
            assert(spec_reserved_keys()[r] == "write"@);
        } else if r == 5 {
            assert(spec_reserved_keys()[r] == "execution"@);
        }
    }
}

/// Texts with different numbers differ.
pub proof fn lemma_key_id_distinct(a: Seq<char>, b: Seq<char>)
    requires
        key_id(a) != key_id(b),
    ensures
        a != b,
{
}

} // verus!
