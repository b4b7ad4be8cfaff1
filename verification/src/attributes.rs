//! Post-transform and norm-kind attributes of the ONNX-ML linear operators.

use vstd::prelude::*;
use crate::text::str_eq;

verus! {

/// Post-transform applied to the scores of a linear classifier.
#[derive(Clone, Copy, Debug, PartialEq, Eq, Structural)]
pub enum PostTransformLC {
    Identity,
    Softmax,
    Logistic,
}

/// Why a classifier post-transform attribute was refused.
#[derive(Clone, Debug, PartialEq, Eq)]
pub enum PostTransformError {
    /// `SOFTMAX_ZERO` and `PROBIT` are known to ONNX but not supported.
    Unsupported(String),
    /// Any other unknown name.
    Invalid(String),
}

pub open spec fn none_name() -> Seq<char> { seq!['N', 'O', 'N', 'E'] }
pub open spec fn softmax_name() -> Seq<char> { seq!['S', 'O', 'F', 'T', 'M', 'A', 'X'] }
pub open spec fn logistic_name() -> Seq<char> { seq!['L', 'O', 'G', 'I', 'S', 'T', 'I', 'C'] }
pub open spec fn softmax_zero_name() -> Seq<char> {
    seq!['S', 'O', 'F', 'T', 'M', 'A', 'X', '_', 'Z', 'E', 'R', 'O']
}
pub open spec fn probit_name() -> Seq<char> { seq!['P', 'R', 'O', 'B', 'I', 'T'] }

/// The attribute spelling of a classifier post-transform.
pub open spec fn lc_name(k: PostTransformLC) -> Seq<char> {
    match k {
        PostTransformLC::Identity => none_name(),
        PostTransformLC::Softmax => softmax_name(),
        PostTransformLC::Logistic => logistic_name(),
    }
}

/// The post-transform an attribute value designates, if any.
pub open spec fn spec_parse_lc(s: Seq<char>) -> Option<PostTransformLC> {
    if s == none_name() {
        Some(PostTransformLC::Identity)
    } else if s == softmax_name() {
        Some(PostTransformLC::Softmax)
    } else if s == logistic_name() {
        Some(PostTransformLC::Logistic)
    } else {
        None
    }
}

/// `e` is the error refusing `s` as a classifier post-transform: the known
/// but unsupported names apart from the unknown ones, each holding `s`.
pub open spec fn lc_parse_error(s: Seq<char>, e: PostTransformError) -> bool {
    &&& spec_parse_lc(s) is None
    &&& match e {
        PostTransformError::Unsupported(t) => t@ == s && (s == softmax_zero_name() || s == probit_name()),
        PostTransformError::Invalid(t) => t@ == s && s != softmax_zero_name() && s != probit_name(),
    }
}

/// Parses the `post_transform` attribute of a linear classifier.
pub fn parse_post_transform(s: &str) -> (res: Result<PostTransformLC, PostTransformError>)
    ensures
        match res {
            Ok(k) => spec_parse_lc(s@) == Some(k),
            Err(e) => lc_parse_error(s@, e),
        },
{
    proof {
        reveal_strlit("NONE");
        reveal_strlit("SOFTMAX");
        reveal_strlit("LOGISTIC");
        reveal_strlit("SOFTMAX_ZERO");
        reveal_strlit("PROBIT");
        assert("NONE"@ =~= none_name());
        assert("SOFTMAX"@ =~= softmax_name());
        assert("LOGISTIC"@ =~= logistic_name());
        assert("SOFTMAX_ZERO"@ =~= softmax_zero_name());
        assert("PROBIT"@ =~= probit_name());
    }
    if str_eq(s, "NONE") {
        Ok(PostTransformLC::Identity)
    } else if str_eq(s, "SOFTMAX") {
        Ok(PostTransformLC::Softmax)
    } else if str_eq(s, "LOGISTIC") {
        Ok(PostTransformLC::Logistic)
    } else if str_eq(s, "SOFTMAX_ZERO") || str_eq(s, "PROBIT") {
        Err(PostTransformError::Unsupported(s.to_owned()))
    } else {
        Err(PostTransformError::Invalid(s.to_owned()))
    }
}


/// The attribute spelling under which a classifier post-transform is written out.
pub fn post_transform_name(k: PostTransformLC) -> (res: &'static str)
    ensures
        res@ == lc_name(k),
{
    proof {
        reveal_strlit("NONE");
        reveal_strlit("SOFTMAX");
        reveal_strlit("LOGISTIC");
        assert("NONE"@ =~= none_name());
        assert("SOFTMAX"@ =~= softmax_name());
        assert("LOGISTIC"@ =~= logistic_name());
    }
    match k {
        PostTransformLC::Identity => "NONE",
        PostTransformLC::Softmax => "SOFTMAX",
        PostTransformLC::Logistic => "LOGISTIC",
    }
}

/// Parses an optional `post_transform` attribute; an absent one means `NONE`.
pub fn post_transform_or_default(s: Option<&str>) -> (res: Result<PostTransformLC, PostTransformError>)
    ensures
        s is None ==> res == Ok::<PostTransformLC, PostTransformError>(PostTransformLC::Identity),
        s matches Some(t) ==> match res {
            Ok(k) => spec_parse_lc(t@) == Some(k),
            Err(e) => lc_parse_error(t@, e),
        },
{
    match s {
        Some(t) => parse_post_transform(t),
        None => Ok(PostTransformLC::Identity),
    }
}

/// Writing a classifier post-transform out and parsing it back gives it back.
pub proof fn lemma_post_transform_round_trip(k: PostTransformLC)
    ensures
        spec_parse_lc(lc_name(k)) == Some(k),
{
    assert(none_name() != softmax_name()) by { assert(none_name().len() != softmax_name().len()); }
    assert(none_name() != logistic_name()) by { assert(none_name().len() != logistic_name().len()); }
    assert(softmax_name() != logistic_name()) by { assert(softmax_name()[0] != logistic_name()[0]); }
}

/// Post-transform applied to the outputs of a linear regressor.
#[derive(Clone, Copy, Debug, PartialEq, Eq, Structural)]
pub enum PostTransformLR {
    Identity,
    Softmax,
    Logistic,
}

/// The attribute spelling of a regressor post-transform.
pub open spec fn lr_name(k: PostTransformLR) -> Seq<char> {
    match k {
        PostTransformLR::Identity => none_name(),
        PostTransformLR::Softmax => softmax_name(),
        PostTransformLR::Logistic => logistic_name(),
    }
}

/// The regressor post-transform an attribute value designates, if any.
pub open spec fn spec_parse_lr(s: Seq<char>) -> Option<PostTransformLR> {
    if s == none_name() {
        Some(PostTransformLR::Identity)
    } else if s == softmax_name() {
        Some(PostTransformLR::Softmax)
    } else if s == logistic_name() {
        Some(PostTransformLR::Logistic)
    } else {
        None
    }
}

/// Parses the `post_transform` attribute of a linear regressor; on failure the
/// error holds the refused value.
pub fn parse_post_transform_lr(s: &str) -> (res: Result<PostTransformLR, String>)
    ensures
        match res {
            Ok(k) => spec_parse_lr(s@) == Some(k),
            Err(t) => t@ == s@ && spec_parse_lr(s@) is None,
        },
{
    proof {
        reveal_strlit("NONE");
        reveal_strlit("SOFTMAX");
        reveal_strlit("LOGISTIC");
        assert("NONE"@ =~= none_name());
        assert("SOFTMAX"@ =~= softmax_name());
        assert("LOGISTIC"@ =~= logistic_name());
    }
    if str_eq(s, "NONE") {
        Ok(PostTransformLR::Identity)
    } else if str_eq(s, "SOFTMAX") {
        Ok(PostTransformLR::Softmax)
    } else if str_eq(s, "LOGISTIC") {
        Ok(PostTransformLR::Logistic)
    } else {
        Err(s.to_owned())
    }
}

/// The attribute spelling under which a regressor post-transform is written out.
pub fn post_transform_lr_name(k: PostTransformLR) -> (res: &'static str)
    ensures
        res@ == lr_name(k),
{
    proof {
        reveal_strlit("NONE");
        reveal_strlit("SOFTMAX");
        reveal_strlit("LOGISTIC");
        assert("NONE"@ =~= none_name());
        assert("SOFTMAX"@ =~= softmax_name());
        assert("LOGISTIC"@ =~= logistic_name());
    }
    match k {
        PostTransformLR::Identity => "NONE",
        PostTransformLR::Softmax => "SOFTMAX",
        PostTransformLR::Logistic => "LOGISTIC",
    }
}

/// Writing a regressor post-transform out and parsing it back gives it back.
pub proof fn lemma_post_transform_lr_round_trip(k: PostTransformLR)
    ensures
        spec_parse_lr(lr_name(k)) == Some(k),
{
    assert(none_name() != softmax_name()) by { assert(none_name().len() != softmax_name().len()); }
    assert(none_name() != logistic_name()) by { assert(none_name().len() != logistic_name().len()); }
    assert(softmax_name() != logistic_name()) by { assert(softmax_name()[0] != logistic_name()[0]); }
}

/// How a normalizer scales each row.
#[derive(Clone, Copy, Debug, PartialEq, Eq, Structural)]
pub enum NormKind {
    Max,
    L1,
    L2,
}

pub open spec fn max_name() -> Seq<char> { seq!['M', 'A', 'X'] }
pub open spec fn l1_name() -> Seq<char> { seq!['L', '1'] }
pub open spec fn l2_name() -> Seq<char> { seq!['L', '2'] }

/// The attribute spelling of a norm kind.
pub open spec fn norm_name(k: NormKind) -> Seq<char> {
    match k {
        NormKind::Max => max_name(),
        NormKind::L1 => l1_name(),
        NormKind::L2 => l2_name(),
    }
}

/// ASCII upper case of one character; other characters are kept.
pub open spec fn ascii_upper_char(c: char) -> char {
    if 97 <= (c as u32) <= 122 {
        (((c as u32) - 32) as u32) as char
    } else {
        c
    }
}

/// ASCII upper case of a string, character by character.
pub open spec fn ascii_upper(s: Seq<char>) -> Seq<char> {
    Seq::new(s.len(), |i: int| ascii_upper_char(s[i]))
}

/// `str::to_ascii_uppercase`: a copy of `s` where `a`..`z` become `A`..`Z`
/// and every other character is unchanged.
#[verifier::external_body]
fn to_ascii_uppercase(s: &str) -> (res: String)
    ensures
        res@ == ascii_upper(s@),
{
    s.to_ascii_uppercase()
}

/// The norm kind an attribute value designates, ignoring ASCII case.
pub open spec fn spec_parse_norm(s: Seq<char>) -> Option<NormKind> {
    let u = ascii_upper(s);
    if u == max_name() {
        Some(NormKind::Max)
    } else if u == l1_name() {
        Some(NormKind::L1)
    } else if u == l2_name() {
        Some(NormKind::L2)
    } else {
        None
    }
}

/// Parses the `norm` attribute of a normalizer, ignoring ASCII case; on
/// failure the error holds the upper-cased value.
pub fn parse_norm_kind(s: &str) -> (res: Result<NormKind, String>)
    ensures
        match res {
            Ok(k) => spec_parse_norm(s@) == Some(k),
            Err(t) => t@ == ascii_upper(s@) && spec_parse_norm(s@) is None,
        },
{
    proof {
        reveal_strlit("MAX");
        reveal_strlit("L1");
        reveal_strlit("L2");
        assert("MAX"@ =~= max_name());
        assert("L1"@ =~= l1_name());
        assert("L2"@ =~= l2_name());
    }
    let up = to_ascii_uppercase(s);
    if str_eq(up.as_str(), "MAX") {
        Ok(NormKind::Max)
    } else if str_eq(up.as_str(), "L1") {
        Ok(NormKind::L1)
    } else if str_eq(up.as_str(), "L2") {
        Ok(NormKind::L2)
    } else {
        Err(up)
    }
}

/// Parses an optional `norm` attribute; an absent one means `MAX`.
pub fn norm_kind_or_default(s: Option<&str>) -> (res: Result<NormKind, String>)
    ensures
        s is None ==> res == Ok::<NormKind, String>(NormKind::Max),
        s matches Some(t) ==> match res {
            Ok(k) => spec_parse_norm(t@) == Some(k),
            Err(u) => u@ == ascii_upper(t@) && spec_parse_norm(t@) is None,
        },
{
    match s {
        Some(t) => parse_norm_kind(t),
        None => Ok(NormKind::Max),
    }
}

/// The attribute spelling under which a norm kind is written out.
pub fn norm_kind_name(k: NormKind) -> (res: &'static str)
    ensures
        res@ == norm_name(k),
{
    proof {
        reveal_strlit("MAX");
        reveal_strlit("L1");
        reveal_strlit("L2");
        assert("MAX"@ =~= max_name());
        assert("L1"@ =~= l1_name());
        assert("L2"@ =~= l2_name());
    }
    match k {
        NormKind::Max => "MAX",
        NormKind::L1 => "L1",
        NormKind::L2 => "L2",
    }
}

/// Upper-casing twice is upper-casing once.
pub proof fn lemma_ascii_upper_idempotent(s: Seq<char>)
    ensures
        ascii_upper(ascii_upper(s)) == ascii_upper(s),
{
    assert(ascii_upper(ascii_upper(s)) =~= ascii_upper(s));
}

/// The norm attribute is case-insensitive: a value and its upper case
/// designate the same kind.
pub proof fn lemma_norm_kind_case_insensitive(s: Seq<char>)
    ensures
        spec_parse_norm(ascii_upper(s)) == spec_parse_norm(s),
{
    lemma_ascii_upper_idempotent(s);
}

/// Writing a norm kind out and parsing it back gives it back.
pub proof fn lemma_norm_kind_round_trip(k: NormKind)
    ensures
        spec_parse_norm(norm_name(k)) == Some(k),
{
    assert(ascii_upper(max_name()) =~= max_name());
    assert(ascii_upper(l1_name()) =~= l1_name());
    assert(ascii_upper(l2_name()) =~= l2_name());
    assert(max_name() != l1_name()) by { assert(max_name().len() != l1_name().len()); }
    assert(max_name() != l2_name()) by { assert(max_name().len() != l2_name().len()); }
    assert(l1_name() != l2_name()) by { assert(l1_name()[1] != l2_name()[1]); }
}

} // verus!
