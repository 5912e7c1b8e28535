//! What the process-adapter providers share: which configured model serves
//! what, the checks before a call, and the parsing of requested dimensions.

use vstd::prelude::*;

use crate::catalog::{capability_name, capability_named, model_name_of, Capability, ModelId};
use crate::config::ModelDef;
use crate::kernel::EngineError;
use crate::text::{
    concat, is_blank, owned, parse_decimal, parse_unsigned, replace_all, replaced, str_eq,
    substring, to_chars, trim, trim_is_empty, trimmed,
};

verus! {

/// Whether a model called `name` with capability `cap` is configured.
pub open spec fn serves(models: Seq<ModelDef>, name: Seq<char>, cap: Capability) -> bool {
    exists|i: int|
        0 <= i < models.len() && (#[trigger] models[i]).name@ == name && capability_named(
            models[i].capability@,
        ) == Some(cap)
}

/// Whether a configured model called `model_name` serves `capability`.
pub fn model_supports(models: &[ModelDef], model_name: &str, capability: Capability) -> (r: bool)
    ensures
        r == serves(models@, model_name@, capability),
{
    let mut i: usize = 0;
    while i < models.len()
        invariant
            i <= models@.len(),
            forall|j: int|
                0 <= j < i ==> !((#[trigger] models@[j]).name@ == model_name@ && capability_named(
                    models@[j].capability@,
                ) == Some(capability)),
        decreases models.len() - i,
    {
        if str_eq(models[i].name.as_str(), model_name) {
            if Capability::from_str_loose(models[i].capability.as_str()) == Some(capability) {
                return true;
            }
        }
        i = i + 1;
    }
    false
}

/// The outcome of the checks before a call to a provider serving only
/// `served`: the model name to run, or why the call is refused.
pub open spec fn call_verdict(
    provider: Seq<char>,
    models: Seq<ModelDef>,
    model_id: Seq<char>,
    requested: Option<Capability>,
    served: Capability,
) -> Result<Seq<char>, Seq<char>> {
    let name = model_name_of(model_id);
    let capability = match requested {
        Some(c) => c,
        None => served,
    };
    if capability != served {
        Err(
            "provider '"@ + provider + "' only supports "@ + capability_name(served) + ", not "@
                + capability_name(capability),
        )
    } else if !serves(models, name, served) {
        Err(
            "provider '"@ + provider + "' model '"@ + name + "' does not support "@
                + capability_name(served),
        )
    } else {
        Ok(name)
    }
}

/// Check a call to `model_id` for `requested` (default: `served`) against a
/// provider that serves only `served`, giving the model name to run.
pub fn check_call(
    provider: &str,
    models: &[ModelDef],
    model_id: &str,
    requested: Option<Capability>,
    served: Capability,
) -> (r: Result<String, EngineError>)
    ensures
        call_verdict(provider@, models@, model_id@, requested, served) matches Ok(n) ==> (r matches Ok(
            x,
        ) && x@ == n),
        call_verdict(provider@, models@, model_id@, requested, served) matches Err(m) ==> (r matches Err(
            EngineError::UnsupportedOperation(e),
        ) && e@ == m),
{
    let model_name = ModelId::name(model_id);
    let capability = match requested {
        Some(c) => c,
        None => served,
    };
    if capability != served {
        let a = concat("provider '", provider);
        let b = concat(a.as_str(), "' only supports ");
        let c = concat(b.as_str(), served.as_str());
        let d = concat(c.as_str(), ", not ");
        return Err(EngineError::UnsupportedOperation(concat(d.as_str(), capability.as_str())));
    }
    if !model_supports(models, model_name.as_str(), served) {
        let a = concat("provider '", provider);
        let b = concat(a.as_str(), "' model '");
        let c = concat(b.as_str(), model_name.as_str());
        let d = concat(c.as_str(), "' does not support ");
        return Err(EngineError::UnsupportedOperation(concat(d.as_str(), served.as_str())));
    }
    Ok(model_name)
}

/// Whether `c` separates width from height in a size (`x` or `X`).
pub open spec fn is_size_separator(c: char) -> bool {
    c == 'x' || c == 'X'
}

/// Whether `i` is the first separator in `s`.
pub open spec fn is_first_separator(s: Seq<char>, i: int) -> bool {
    &&& 0 <= i < s.len()
    &&& is_size_separator(s[i])
    &&& forall|j: int| 0 <= j < i ==> !is_size_separator(#[trigger] s[j])
}

/// The index of the first separator in `s`, if any.
pub open spec fn first_separator(s: Seq<char>) -> Option<int> {
    if exists|i: int| is_first_separator(s, i) {
        Some(choose|i: int| is_first_separator(s, i))
    } else {
        None
    }
}

/// What a `"WIDTHxHEIGHT"` size string gives: both edges positive, or nothing.
pub open spec fn parsed_size(s: Seq<char>) -> Option<(u32, u32)> {
    match first_separator(s) {
        None => None,
        Some(i) => match (
            parse_unsigned(trimmed(s.take(i)), u32::MAX as nat),
            parse_unsigned(trimmed(s.skip(i + 1)), u32::MAX as nat),
        ) {
            (Some(w), Some(h)) => if w > 0 && h > 0 {
                Some((w as u32, h as u32))
            } else {
                None
            },
            _ => None,
        },
    }
}

/// Parse a `"WIDTHxHEIGHT"` size (separator `x` or `X`) into positive edges.
pub fn parse_size(size: &str) -> (r: Option<(u32, u32)>)
    ensures
        r == parsed_size(size@),
{
    let chars = to_chars(size);
    let mut i: usize = 0;
    while i < chars.len() && !(chars[i] == 'x' || chars[i] == 'X')
        invariant
            chars@ == size@,
            i <= chars@.len(),
            forall|j: int| 0 <= j < i ==> !is_size_separator(#[trigger] size@[j]),
        decreases chars.len() - i,
    {
        i = i + 1;
    }
    if i == chars.len() {
        proof {
            if exists|k: int| is_first_separator(size@, k) {
                let k = choose|k: int| is_first_separator(size@, k);
                assert(!is_size_separator(size@[k]));
            }
        }
        return None;
    }
    proof {
        assert(is_first_separator(size@, i as int));
        let k = choose|k: int| is_first_separator(size@, k);
        if k < i {
            assert(!is_size_separator(size@[k]));
        }
        if k > i {
            assert(!is_size_separator(size@[i as int]));
        }
        assert(size@.subrange(0, i as int) =~= size@.take(i as int));
        assert(size@.subrange(i as int + 1, size@.len() as int) =~= size@.skip(i as int + 1));
    }
    let n = chars.len();
    let w_text = substring(size, 0, i);
    let h_text = substring(size, i + 1, n);
    let w = parse_decimal(trim(w_text.as_str()).as_str(), 4294967295);
    let h = parse_decimal(trim(h_text.as_str()).as_str(), 4294967295);
    match (w, h) {
        (Some(wv), Some(hv)) => {
            if wv > 0 && hv > 0 {
                Some((wv as u32, hv as u32))
            } else {
                None
            }
        },
        _ => None,
    }
}

/// A strictly positive parameter that fits a `u32`; `None` when absent, zero
/// or above `u32::MAX`.
pub open spec fn positive_param(v: Option<u64>) -> Option<u32> {
    match v {
        Some(x) => if 0 < x && x <= u32::MAX {
            Some(x as u32)
        } else {
            None
        },
        None => None,
    }
}

/// Read a positive parameter as a `u32`.
pub fn positive_u32(v: Option<u64>) -> (r: Option<u32>)
    ensures
        r == positive_param(v),
{
    match v {
        Some(x) => {
            if 0 < x && x <= 4294967295 {
                Some(x as u32)
            } else {
                None
            }
        },
        None => None,
    }
}

/// The requested dimensions: a valid combined `size` wins, else `width` and
/// `height` each, else `default_edge`.
pub open spec fn dimensions_of(
    size: Option<Seq<char>>,
    width: Option<u64>,
    height: Option<u64>,
    default_edge: u32,
) -> (u32, u32) {
    match size {
        Some(s) if parsed_size(s) is Some => parsed_size(s).unwrap(),
        _ => (
            match positive_param(width) {
                Some(w) => w,
                None => default_edge,
            },
            match positive_param(height) {
                Some(h) => h,
                None => default_edge,
            },
        ),
    }
}

/// The characters of an optional string slice.
pub open spec fn opt_str(s: Option<&str>) -> Option<Seq<char>> {
    match s {
        Some(v) => Some(v@),
        None => None,
    }
}

/// Compute [`dimensions_of`] from the request's `size`, `width` and `height`
/// parameters (each absent when missing or of another type).
pub fn dimensions(size: Option<&str>, width: Option<u64>, height: Option<u64>, default_edge: u32) -> (r: (
    u32,
    u32,
))
    ensures
        r == dimensions_of(opt_str(size), width, height, default_edge),
{
    if let Some(s) = size {
        if let Some(wh) = parse_size(s) {
            return wh;
        }
    }
    let w = match positive_u32(width) {
        Some(w) => w,
        None => default_edge,
    };
    let h = match positive_u32(height) {
        Some(h) => h,
        None => default_edge,
    };
    (w, h)
}

/// The text a request carries: its first message when it has one, else the
/// named parameter; `None` when that is missing or only white space.
pub open spec fn request_text(first_message: Option<String>, param: Option<String>) -> Option<Seq<char>> {
    let candidate = match first_message {
        Some(m) => Some(m),
        None => param,
    };
    match candidate {
        Some(t) => if is_blank(t@) {
            None
        } else {
            Some(t@)
        },
        None => None,
    }
}

/// The request's text (see [`request_text`]), or an invalid-request error
/// with `message` when there is none.
pub fn take_request_text(first_message: Option<String>, param: Option<String>, message: &str) -> (r: Result<
    String,
    EngineError,
>)
    ensures
        request_text(first_message, param) matches Some(t) ==> (r matches Ok(x) && x@ == t),
        request_text(first_message, param) is None ==> (r matches Err(EngineError::InvalidRequest(m))
            && m@ == message@),
{
    let candidate = match first_message {
        Some(m) => Some(m),
        None => param,
    };
    match candidate {
        Some(t) => {
            if trim_is_empty(t.as_str()) {
                Err(EngineError::InvalidRequest(owned(message)))
            } else {
                Ok(t)
            }
        },
        None => Err(EngineError::InvalidRequest(owned(message))),
    }
}

/// `arg` with each `(placeholder, value)` pair substituted in turn, every
/// occurrence of the placeholder replaced by the value.
pub open spec fn substituted(arg: Seq<char>, pairs: Seq<(Seq<char>, Seq<char>)>) -> Seq<char>
    decreases pairs.len(),
{
    if pairs.len() == 0 {
        arg
    } else {
        substituted(replaced(arg, pairs[0].0, pairs[0].1), pairs.drop_first())
    }
}

/// The characters of each placeholder and value.
pub open spec fn pair_texts(pairs: Seq<(String, String)>) -> Seq<(Seq<char>, Seq<char>)> {
    pairs.map_values(|p: (String, String)| (p.0@, p.1@))
}

/// Whether no placeholder is empty.
pub open spec fn placeholders_nonempty(pairs: Seq<(String, String)>) -> bool {
    forall|i: int| 0 <= i < pairs.len() ==> (#[trigger] pairs[i]).0@.len() > 0
}

/// Compute [`substituted`].
pub fn substitute(arg: &str, pairs: &Vec<(String, String)>) -> (r: String)
    requires
        placeholders_nonempty(pairs@),
    ensures
        r@ == substituted(arg@, pair_texts(pairs@)),
{
    let ghost ps = pair_texts(pairs@);
    let mut cur = owned(arg);
    let mut i: usize = 0;
    assert(ps.skip(0) =~= ps);
    while i < pairs.len()
        invariant
            ps == pair_texts(pairs@),
            placeholders_nonempty(pairs@),
            i <= pairs@.len(),
            substituted(arg@, ps) == substituted(cur@, ps.skip(i as int)),
        decreases pairs.len() - i,
    {
        assert(ps.skip(i as int).drop_first() =~= ps.skip(i as int + 1));
        assert(ps.skip(i as int)[0] == (pairs@[i as int].0@, pairs@[i as int].1@));
        assert(pairs@[i as int].0@.len() > 0);
        cur = replace_all(cur.as_str(), pairs[i].0.as_str(), pairs[i].1.as_str());
        i = i + 1;
    }
    assert(ps.skip(i as int).len() == 0);
    cur
}

/// The characters of each string.
pub open spec fn strings_view(v: Seq<String>) -> Seq<Seq<char>> {
    v.map_values(|s: String| s@)
}

/// Every argument of a template with the placeholders substituted.
pub open spec fn substituted_all(args: Seq<Seq<char>>, pairs: Seq<(Seq<char>, Seq<char>)>) -> Seq<Seq<char>> {
    args.map_values(|a: Seq<char>| substituted(a, pairs))
}

/// Compute [`substituted_all`].
pub fn substitute_args(args: &Vec<String>, pairs: &Vec<(String, String)>) -> (r: Vec<String>)
    requires
        placeholders_nonempty(pairs@),
    ensures
        strings_view(r@) == substituted_all(strings_view(args@), pair_texts(pairs@)),
{
    let ghost ps = pair_texts(pairs@);
    let mut out: Vec<String> = Vec::new();
    let mut i: usize = 0;
    while i < args.len()
        invariant
            ps == pair_texts(pairs@),
            placeholders_nonempty(pairs@),
            i <= args@.len(),
            strings_view(out@) == substituted_all(strings_view(args@).take(i as int), ps),
        decreases args.len() - i,
    {
        let s = substitute(args[i].as_str(), pairs);
        let ghost before = out@;
        out.push(s);
        assert(strings_view(args@).take(i as int + 1) =~= strings_view(args@).take(i as int).push(
            args@[i as int]@,
        ));
        assert(strings_view(out@) =~= strings_view(before).push(s@));
        assert(substituted_all(strings_view(args@).take(i as int + 1), ps) =~= substituted_all(
            strings_view(args@).take(i as int),
            ps,
        ).push(substituted(args@[i as int]@, ps)));
        i = i + 1;
    }
    assert(strings_view(args@).take(args@.len() as int) =~= strings_view(args@));
    out
}

/// A configured format, or `default` when it is missing or empty.
pub open spec fn format_or(format: Option<String>, default: Seq<char>) -> Seq<char> {
    match format {
        Some(f) => if f@.len() > 0 {
            f@
        } else {
            default
        },
        None => default,
    }
}

/// Compute [`format_or`].
pub fn choose_format(format: Option<String>, default: &str) -> (r: String)
    ensures
        r@ == format_or(format, default@),
{
    match format {
        Some(f) => {
            if f.as_str().unicode_len() > 0 {
                f
            } else {
                owned(default)
            }
        },
        None => owned(default),
    }
}

} // verus!
