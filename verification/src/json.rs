//! The typed accessors the core exposes over its decoded JSON argument
//! blob: build a document from the raw first-argument text (base64 or
//! plain), then read typed values out of it by key path. The decoding and
//! parsing themselves are the outside crates' work, held behind trusted
//! declarations; everything around them is verified.
use vstd::prelude::*;
use vstd::string::*;
use vstd::utf8::{decode_utf8, valid_utf8};
use base64::Engine;
use crate::fail::{fail, Attempt, Fail};
use crate::locate::ErrDetails;

verus! {

#[verifier::external_type_specification]
#[verifier::external_body]
pub struct ExValue(serde_json::Value);

/// What `serde_json::from_str` yields on `text`: the parsed document, or
/// nothing when `text` is not one. The JSON grammar is the outside
/// crate's; only the result is named.
pub uninterp spec fn json_parse(text: Seq<char>) -> Option<serde_json::Value>;

/// Relies on `serde_json::from_str::<Value>`: parsing is a function of
/// the text alone; on failure the error's debug rendering is handed back,
/// with nothing promised of its content.
#[verifier::external_body]
fn parse_value(text: &str) -> (r: Result<serde_json::Value, String>)
    ensures
        r is Ok <==> json_parse(text@) is Some,
        r is Ok ==> json_parse(text@) == Some(r->Ok_0),
{
    match serde_json::from_str::<serde_json::Value>(text) {
        Ok(v) => Ok(v),
        Err(e) => Err(format!("{:?}", e)),
    }
}

/// What `Value::get` yields on `v` for the string key `key`: the child
/// value, or nothing when `v` is no object or has no such member.
pub uninterp spec fn json_field(v: serde_json::Value, key: Seq<char>) -> Option<serde_json::Value>;

/// Relies on `serde_json::Value::get` with a string index: member lookup
/// is a function of the value and the key.
#[verifier::external_body]
fn value_get<'a>(v: &'a serde_json::Value, key: &str) -> (r: Option<&'a serde_json::Value>)
    ensures
        match r {
            Some(c) => json_field(*v, key@) == Some(*c),
            None => json_field(*v, key@) is None,
        },
{
    v.get(key)
}

/// What `Value::as_str` yields on `v`: the characters of a string value,
/// nothing otherwise.
pub uninterp spec fn json_as_str(v: serde_json::Value) -> Option<Seq<char>>;

/// Relies on `serde_json::Value::as_str`: a function of the value alone.
#[verifier::external_body]
fn value_as_str<'a>(v: &'a serde_json::Value) -> (r: Option<&'a str>)
    ensures
        match r {
            Some(s) => json_as_str(*v) == Some(s@),
            None => json_as_str(*v) is None,
        },
{
    v.as_str()
}

/// What `Value::as_u64` yields on `v`: the number, when `v` is an integer
/// that fits, nothing otherwise.
pub uninterp spec fn json_as_u64(v: serde_json::Value) -> Option<u64>;

/// Relies on `serde_json::Value::as_u64`: a function of the value alone.
#[verifier::external_body]
fn value_as_u64(v: &serde_json::Value) -> (r: Option<u64>)
    ensures
        r == json_as_u64(*v),
{
    v.as_u64()
}

/// What `Value`'s debug rendering prints for `v`: a function of the value
/// alone.
pub uninterp spec fn json_debug(v: serde_json::Value) -> Seq<char>;

/// Relies on `serde_json::Value`'s `Debug` implementation: the rendering
/// is a function of the value alone.
#[verifier::external_body]
fn value_debug(v: &serde_json::Value) -> (r: String)
    ensures
        r@ == json_debug(*v),
{
    format!("{:?}", v)
}

/// What base64's standard-alphabet decode yields on `text`: the decoded
/// bytes, or nothing when `text` is not base64.
pub uninterp spec fn base64_decode(text: Seq<char>) -> Option<Seq<u8>>;

/// Relies on base64's `STANDARD` engine `decode`: decoding is a function
/// of the text alone.
#[verifier::external_body]
fn decode_base64(text: &str) -> (r: Option<Vec<u8>>)
    ensures
        match r {
            Some(b) => base64_decode(text@) == Some(b@),
            None => base64_decode(text@) is None,
        },
{
    base64::engine::general_purpose::STANDARD.decode(text).ok()
}

/// Relies on `String::from_utf8`: it succeeds exactly on valid UTF-8 and
/// decodes it; on failure the error's debug rendering is handed back,
/// with nothing promised of its content.
#[verifier::external_body]
fn utf8_string(bytes: Vec<u8>) -> (r: Result<String, String>)
    ensures
        r is Ok <==> valid_utf8(bytes@),
        r is Ok ==> r->Ok_0@ == decode_utf8(bytes@),
{
    match String::from_utf8(bytes) {
        Ok(s) => Ok(s),
        Err(e) => Err(format!("{:?}", e)),
    }
}

/// A parsed JSON argument document.
pub struct JSON {
    root: serde_json::Value,
}

/// The text a raw argument blob stands for: the blob itself unless it is
/// base64, in which case its decoded bytes read as UTF-8; absent when the
/// blob is base64 whose bytes are not UTF-8.
pub open spec fn arg_text(raw: Seq<char>) -> Option<Seq<char>> {
    match base64_decode(raw) {
        Some(b) => if valid_utf8(b) {
            Some(decode_utf8(b))
        } else {
            None
        },
        None => Some(raw),
    }
}

/// The value the key path leads to, one member lookup per key.
pub open spec fn lookup_path(v: serde_json::Value, path: Seq<Seq<char>>) -> Option<
    serde_json::Value,
>
    decreases path.len(),
{
    if path.len() == 0 {
        Some(v)
    } else {
        match json_field(v, path[0]) {
            Some(c) => lookup_path(c, path.drop_first()),
            None => None,
        }
    }
}

/// The depth of the first key of the path that is missing, if any.
pub open spec fn missing_at(v: serde_json::Value, path: Seq<Seq<char>>) -> Option<int>
    decreases path.len(),
{
    if path.len() == 0 {
        None
    } else {
        match json_field(v, path[0]) {
            Some(c) => match missing_at(c, path.drop_first()) {
                Some(d) => Some(d + 1),
                None => None,
            },
            None => Some(0),
        }
    }
}

/// A key as the key-not-found message renders it.
pub open spec fn quoted(k: Seq<char>) -> Seq<char> {
    "\""@ + k + "\""@
}

/// The keys `path[from..k]`, quoted and comma-separated.
pub open spec fn keys_upto(path: Seq<Seq<char>>, from: int, k: int) -> Seq<char>
    decreases k - from,
{
    if k <= from {
        Seq::empty()
    } else if k == from + 1 {
        quoted(path[from])
    } else {
        keys_upto(path, from, k - 1) + ", "@ + quoted(path[k - 1])
    }
}

/// The key-not-found message, naming the keys still to walk from `from`.
pub open spec fn getfail_msg_spec(path: Seq<Seq<char>>, from: int) -> Seq<char> {
    "JSON::get - Key not found: ["@ + keys_upto(path, from, path.len() as int) + "]"@
}

/// Composes the key-not-found message for the keys from `from` on.
fn getfail_msg(keys: &[&str], from: usize) -> (r: String)
    requires
        from <= keys@.len(),
    ensures
        r@ == getfail_msg_spec(keys@.map_values(|k: &str| k@), from as int),
{
    let ghost path = keys@.map_values(|k: &str| k@);
    let mut out = String::new();
    out.append("JSON::get - Key not found: [");
    let mut j: usize = from;
    while j < keys.len()
        invariant
            from <= j <= keys@.len(),
            path == keys@.map_values(|k: &str| k@),
            out@ == "JSON::get - Key not found: ["@ + keys_upto(path, from as int, j as int),
        decreases keys@.len() - j,
    {
        if j > from {
            out.append(", ");
        }
        out.append("\"");
        let k: &str = keys[j];
        out.append(k);
        out.append("\"");
        j = j + 1;
        proof {
            assert(path[j - 1] == keys@[j - 1]@);
            assert(out@ =~= "JSON::get - Key not found: ["@ + keys_upto(
                path,
                from as int,
                j as int,
            ));
        }
    }
    out.append("]");
    proof {
        assert(out@ =~= getfail_msg_spec(path, from as int));
    }
    out
}

/// A JSON value that can be read as a `T`: the conversions the core
/// exposes to its caller.
pub trait Convert<T> {
    /// Whether the conversion succeeds.
    spec fn convert_ok(&self) -> bool;

    /// Whether `t` is what the conversion yields.
    spec fn is_converted(&self, t: T) -> bool;

    /// The message reported when the conversion fails.
    spec fn convert_err_msg(&self) -> Seq<char>;

    /// Converts, failing with a record attributed to `place`.
    fn make(&self, place: &ErrDetails) -> (r: Attempt<T>)
        ensures
            r is Ok <==> self.convert_ok(),
            r is Ok ==> self.is_converted(r->Ok_0),
            r is Err ==> r->Err_0.wf() && r->Err_0.spec_places() == seq![*place]
                && r->Err_0.spec_msg() == self.convert_err_msg(),
    ;
}

impl Convert<String> for serde_json::Value {
    open spec fn convert_ok(&self) -> bool {
        json_as_str(*self) is Some
    }

    open spec fn is_converted(&self, t: String) -> bool {
        json_as_str(*self) == Some(t@)
    }

    open spec fn convert_err_msg(&self) -> Seq<char> {
        "json_io::Convert - Value is not a string: "@ + json_debug(*self)
    }

    fn make(&self, place: &ErrDetails) -> (r: Attempt<String>) {
        match value_as_str(self) {
            Some(s) => Ok(s.to_owned()),
            None => {
                let mut msg = String::new();
                msg.append("json_io::Convert - Value is not a string: ");
                let d = value_debug(self);
                msg.append(d.as_str());
                proof {
                    assert(msg@ =~= <serde_json::Value as Convert<String>>::convert_err_msg(self));
                }
                Err(Fail::new(place.duplicate(), msg))
            },
        }
    }
}

impl Convert<u64> for serde_json::Value {
    open spec fn convert_ok(&self) -> bool {
        json_as_u64(*self) is Some
    }

    open spec fn is_converted(&self, t: u64) -> bool {
        json_as_u64(*self) == Some(t)
    }

    open spec fn convert_err_msg(&self) -> Seq<char> {
        "json_io::Convert - Value is not a u64: "@ + json_debug(*self)
    }

    fn make(&self, place: &ErrDetails) -> (r: Attempt<u64>) {
        match value_as_u64(self) {
            Some(x) => Ok(x),
            None => {
                let mut msg = String::new();
                msg.append("json_io::Convert - Value is not a u64: ");
                let d = value_debug(self);
                msg.append(d.as_str());
                proof {
                    assert(msg@ =~= <serde_json::Value as Convert<u64>>::convert_err_msg(self));
                }
                Err(Fail::new(place.duplicate(), msg))
            },
        }
    }
}

impl Convert<u16> for serde_json::Value {
    open spec fn convert_ok(&self) -> bool {
        json_as_u64(*self) is Some
    }

    open spec fn is_converted(&self, t: u16) -> bool {
        json_as_u64(*self) is Some && t == json_as_u64(*self)->0 as u16
    }

    open spec fn convert_err_msg(&self) -> Seq<char> {
        "json_io::Convert - Value is not a u16: "@ + json_debug(*self)
    }

    fn make(&self, place: &ErrDetails) -> (r: Attempt<u16>) {
        match value_as_u64(self) {
            Some(x) => Ok(#[verifier::truncate] (x as u16)),
            None => {
                let mut msg = String::new();
                msg.append("json_io::Convert - Value is not a u16: ");
                let d = value_debug(self);
                msg.append(d.as_str());
                proof {
                    assert(msg@ =~= <serde_json::Value as Convert<u16>>::convert_err_msg(self));
                }
                Err(Fail::new(place.duplicate(), msg))
            },
        }
    }
}

impl JSON {
    /// The parsed document.
    pub closed spec fn spec_root(&self) -> serde_json::Value {
        self.root
    }

    /// Builds the document from the raw first-argument blob: decodes it
    /// from base64 when it is base64 (failing when those bytes are not
    /// UTF-8), takes it as it stands otherwise, and parses the text.
    /// Failures are attributed to `place`.
    pub fn new(raw: String, place: ErrDetails) -> (r: Attempt<JSON>)
        ensures
            r is Ok <==> (arg_text(raw@) is Some && json_parse(arg_text(raw@)->0) is Some),
            r is Ok ==> r->Ok_0.spec_root() == json_parse(arg_text(raw@)->0)->0,
            r is Err ==> r->Err_0.wf() && r->Err_0.spec_places() == seq![place],
    {
        let text: String = match decode_base64(raw.as_str()) {
            Some(bytes) => match utf8_string(bytes) {
                Ok(s) => s,
                Err(rendered) => {
                    return Err(Fail::from_debug(place, rendered));
                },
            },
            None => raw,
        };
        match parse_value(text.as_str()) {
            Ok(root) => Ok(JSON { root }),
            Err(rendered) => {
                let mut msg = rendered;
                msg.append(". \n\tInput: ");
                msg.append(text.as_str());
                fail(place, msg)
            },
        }
    }

    /// Walks the key path down from the root and converts what it finds.
    /// It succeeds exactly when every key is present and the found value
    /// converts; a missing key fails with a message naming the keys still
    /// to walk, and a present value of the wrong shape fails with the
    /// conversion's message. Failures are attributed to `place`.
    pub fn get<T>(&self, keys: &[&str], place: &ErrDetails) -> (r: Attempt<T>) where
        serde_json::Value: Convert<T>
        requires
            keys@.len() >= 1,
        ensures
            ({
                let path = keys@.map_values(|k: &str| k@);
                let target = lookup_path(self.spec_root(), path);
                &&& (r is Ok <==> (target is Some && target->0.convert_ok()))
                &&& (r is Ok ==> target->0.is_converted(r->Ok_0))
                &&& (r is Err ==> r->Err_0.wf() && r->Err_0.spec_places() == seq![*place])
                &&& (r is Err && missing_at(self.spec_root(), path) is Some
                    ==> r->Err_0.spec_msg() == getfail_msg_spec(
                    path,
                    missing_at(self.spec_root(), path)->0,
                ))
                &&& (r is Err && missing_at(self.spec_root(), path) is None
                    ==> r->Err_0.spec_msg() == target->0.convert_err_msg())
            }),
    {
        let ghost path = keys@.map_values(|k: &str| k@);
        proof {
            assert(path.skip(0) =~~= path);
        }
        let mut cur: &serde_json::Value = &self.root;
        let mut idx: usize = 0;
        while idx < keys.len()
            invariant
                idx <= keys@.len(),
                path == keys@.map_values(|k: &str| k@),
                path.len() == keys@.len(),
                lookup_path(self.spec_root(), path) == lookup_path(*cur, path.skip(idx as int)),
                missing_at(self.spec_root(), path) == match missing_at(
                    *cur,
                    path.skip(idx as int),
                ) {
                    Some(d) => Some(d + idx),
                    None => None::<int>,
                },
            decreases keys@.len() - idx,
        {
            proof {
                assert(path.skip(idx as int)[0] == path[idx as int]);
                assert(path[idx as int] == keys@[idx as int]@);
            }
            let key: &str = keys[idx];
            match value_get(cur, key) {
                Some(c) => {
                    proof {
                        assert(path.skip(idx as int).drop_first() =~~= path.skip(idx as int + 1));
                    }
                    cur = c;
                    idx = idx + 1;
                },
                None => {
                    let msg = getfail_msg(keys, idx);
                    return fail(place.duplicate(), msg);
                },
            }
        }
        proof {
            assert(path.skip(idx as int).len() == 0);
        }
        Convert::<T>::make(cur, place)
    }

    /// Walks the key path and converts, handing back `default` when any
    /// key is missing or the found value does not convert.
    pub fn get_or<T>(&self, keys: &[&str], default: T) -> (r: T) where
        serde_json::Value: Convert<T>
        requires
            keys@.len() >= 1,
        ensures
            ({
                let path = keys@.map_values(|k: &str| k@);
                let target = lookup_path(self.spec_root(), path);
                &&& (target is Some && target->0.convert_ok() ==> target->0.is_converted(r))
                &&& (!(target is Some && target->0.convert_ok()) ==> r == default)
            }),
    {
        let place = ErrDetails::new(String::new(), 0, String::new());
        match self.get(keys, &place) {
            Ok(v) => v,
            Err(_) => default,
        }
    }
}

} // verus!
