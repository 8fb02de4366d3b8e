//! Per-request metadata: the caller's address and the decoded path
//! parameters, and the decoding step that produces the latter from the raw
//! captures of a path match.

use vstd::prelude::*;
use vstd::string::StringExecFns;

use super::params::{
    kv_views, lemma_list_map_update, list_keys_unique, list_map, RouteParams,
};
use crate::response::ErrorResponse;

verus! {

/// The caller's socket address in display form, attached once per accepted
/// connection before routing and read-only thereafter.
#[derive(PartialEq, Eq, Clone, Debug)]
pub struct RemoteAddrExt(pub String);

/// The decoded path parameters of a routed request.
#[derive(Debug)]
pub struct RouteParamsExt(pub RouteParams);

/// A path parameter whose percent-encoded value did not decode to text,
/// carrying the offending parameter name.
#[derive(PartialEq, Eq, Clone, Debug)]
pub struct InvalidParamEncoding(pub String);

impl ErrorResponse for InvalidParamEncoding {
    open spec fn spec_message(&self) -> Seq<char> {
        "invalid param encoding for key "@ + self.0@
    }

    fn message(&self) -> (r: String) {
        let mut m: String = "invalid param encoding for key ".to_owned();
        m.append(self.0.as_str());
        m
    }
}

/// What percent-decoding followed by UTF-8 decoding makes of a text: `None`
/// when the decoded bytes are not well-formed UTF-8. A function of the input
/// characters alone.
pub uninterp spec fn percent_decoded(s: Seq<char>) -> Option<Seq<char>>;

/// Relies on `percent_encoding::percent_decode` and
/// `PercentDecode::decode_utf8`: every `%`-and-two-hex-digits group becomes
/// one byte, the result is read as UTF-8, and the outcome depends on the
/// input alone.
#[verifier::external_body]
fn percent_decode_utf8(s: &str) -> (r: Option<String>)
    ensures
        match r {
            Some(t) => percent_decoded(s@) == Some(t@),
            None => percent_decoded(s@) == None::<Seq<char>>,
        },
{
    match percent_encoding::percent_decode(s.as_bytes()).decode_utf8() {
        Ok(text) => Some(text.into_owned()),
        Err(_) => None,
    }
}

/// What decoding the first `n` raw captures yields: the decoded mapping with
/// later entries winning, or the name of the first capture whose value does
/// not decode. One bad value rejects the whole set: no partially decoded
/// mapping is ever produced.
pub open spec fn decode_prefix(raw: Seq<(Seq<char>, Seq<char>)>, n: int) -> Result<
    Map<Seq<char>, Seq<char>>,
    Seq<char>,
>
    decreases n,
{
    if n <= 0 {
        Ok(Map::empty())
    } else {
        match decode_prefix(raw, n - 1) {
            Err(k) => Err(k),
            Ok(m) => match percent_decoded(raw[n - 1].1) {
                None => Err(raw[n - 1].0),
                Some(v) => Ok(m.insert(raw[n - 1].0, v)),
            },
        }
    }
}

/// What decoding a full set of raw captures yields.
pub open spec fn decode_params(raw: Seq<(Seq<char>, Seq<char>)>) -> Result<
    Map<Seq<char>, Seq<char>>,
    Seq<char>,
> {
    decode_prefix(raw, raw.len() as int)
}

/// A decoding error at one capture settles the outcome of every longer
/// prefix.
proof fn lemma_decode_prefix_err(raw: Seq<(Seq<char>, Seq<char>)>, m: int, n: int)
    requires
        0 <= m <= n,
        decode_prefix(raw, m) is Err,
    ensures
        decode_prefix(raw, n) == decode_prefix(raw, m),
    decreases n - m,
{
    if n > m {
        lemma_decode_prefix_err(raw, m, n - 1);
    }
}

impl RouteParamsExt {
    /// Decodes raw captures into a parameter mapping, value by value,
    /// aborting on the first value that does not decode.
    #[verifier::loop_isolation(false)]
    pub fn try_from(raw: Vec<(String, String)>) -> (r: Result<RouteParamsExt, InvalidParamEncoding>)
        ensures
            match r {
                Ok(p) => p.0.wf() && decode_params(kv_views(raw@)) == Ok::<_, Seq<char>>(p.0@),
                Err(e) => decode_params(kv_views(raw@)) == Err::<Map<Seq<char>, Seq<char>>, _>(
                    e.0@,
                ),
            },
    {
        let ghost views = kv_views(raw@);
        let mut out: Vec<(String, String)> = Vec::new();
        let n = raw.len();
        for i in 0..n
            invariant
                n == raw@.len(),
                list_keys_unique(kv_views(out@)),
                decode_prefix(views, i as int) == Ok::<_, Seq<char>>(list_map(kv_views(out@))),
        {
            proof {
                assert(views[i as int] == (raw@[i as int].0@, raw@[i as int].1@));
            }
            let decoded = percent_decode_utf8(raw[i].1.as_str());
            match decoded {
                Some(value) => {
                    upsert(&mut out, raw[i].0.clone(), value);
                },
                None => {
                    proof {
                        assert(decode_prefix(views, i + 1) == Err::<
                            Map<Seq<char>, Seq<char>>,
                            _,
                        >(views[i as int].0));
                        lemma_decode_prefix_err(views, i + 1, views.len() as int);
                    }
                    return Err(InvalidParamEncoding(raw[i].0.clone()));
                },
            }
        }
        Ok(RouteParamsExt(RouteParams::from_pairs(out)))
    }
}

/// Places `value` under `key`, keeping keys unique.
#[verifier::loop_isolation(false)]
fn upsert(out: &mut Vec<(String, String)>, key: String, value: String)
    requires
        list_keys_unique(kv_views(old(out)@)),
    ensures
        list_keys_unique(kv_views(final(out)@)),
        list_map(kv_views(final(out)@)) == list_map(kv_views(old(out)@)).insert(key@, value@),
{
    let ghost orig = kv_views(out@);
    let n = out.len();
    let mut idx: usize = n;
    for i in 0..n
        invariant
            idx <= n,
            idx == n ==> forall|j: int| 0 <= j < i ==> (#[trigger] orig[j]).0 != key@,
            idx < n ==> orig[idx as int].0 == key@,
    {
        proof {
            assert(orig[i as int] == (out@[i as int].0@, out@[i as int].1@));
        }
        if idx == n && out[i].0 == key {
            idx = i;
        }
    }
    if idx < n {
        proof {
            lemma_list_map_update(orig, idx as int, value@);
        }
        out.set(idx, (key, value));
        proof {
            assert(kv_views(out@) =~= orig.update(idx as int, (key@, value@)));
            assert(list_keys_unique(kv_views(out@))) by {
                assert(forall|a: int|
                    0 <= a < kv_views(out@).len() ==> (#[trigger] kv_views(out@)[a]).0
                        == orig[a].0);
            }
        }
    } else {
        out.push((key, value));
        proof {
            assert(kv_views(out@) =~= orig.push((key@, value@)));
            assert(kv_views(out@).drop_last() =~= orig);
            assert(list_keys_unique(kv_views(out@))) by {
                assert(forall|j: int| 0 <= j < orig.len() ==> (#[trigger] orig[j]).0 != key@);
                assert(forall|a: int|
                    0 <= a < orig.len() ==> (#[trigger] kv_views(out@)[a]) == orig[a]);
                assert(kv_views(out@)[orig.len() as int].0 == key@);
            }
        }
    }
}

} // verus!
