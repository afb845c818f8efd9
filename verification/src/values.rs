//! Values that generated queries take and give.

use vstd::prelude::*;
use vstd::utf8::{decode_utf8, encode_utf8, valid_utf8};

verus! {

/// Calls `std::str::from_utf8`, which gives the text of bytes that are UTF-8, and
/// an error on all others.
#[verifier::external_body]
fn text_of_utf8(raw: &[u8]) -> (r: Option<String>)
    ensures
        r is Some <==> valid_utf8(raw@),
        r matches Some(s) ==> s@ == decode_utf8(raw@),
{
    std::str::from_utf8(raw).ok().map(str::to_owned)
}

/// A label of an enum type. The server sends and takes it as the UTF-8 bytes of the
/// label.
#[derive(Debug)]
pub struct EnumString(pub String);

/// Why bytes are no label.
#[derive(Debug, PartialEq, Eq, Structural, Clone, Copy)]
pub enum LabelFault {
    NotUtf8,
}

impl EnumString {
    /// The label that some bytes of the server are.
    pub fn from_sql(raw: &[u8]) -> (r: Result<EnumString, LabelFault>)
        ensures
            r is Ok <==> valid_utf8(raw@),
            r matches Ok(label) ==> label.0@ == decode_utf8(raw@),
            r matches Err(e) ==> e == LabelFault::NotUtf8,
    {
        match text_of_utf8(raw) {
            Some(s) => Ok(EnumString(s)),
            None => Err(LabelFault::NotUtf8),
        }
    }

    /// Writes the bytes of the label behind those that are there.
    pub fn to_sql(&self, out: &mut Vec<u8>)
        ensures
            final(out)@ == old(out)@ + encode_utf8(self.0@),
    {
        let bytes: &[u8] = self.0.as_str().as_bytes();
        out.extend_from_slice(bytes);
        proof {
            assert(out@ =~= old(out)@ + encode_utf8(self.0@));
        }
    }
}

/// The bytes of a label are read as the label again.
pub proof fn law_label_comes_back(label: Seq<char>)
    ensures
        valid_utf8(encode_utf8(label)),
        decode_utf8(encode_utf8(label)) == label,
{
    vstd::utf8::encode_utf8_valid_utf8(label);
    vstd::utf8::encode_utf8_decode_utf8(label);
}

/// A value that can be given where a text or nothing is expected.
pub trait IntoOptionString: Sized {
    /// Whether the value may stand for `r`.
    spec fn stands_for(self, r: Option<String>) -> bool;

    /// The text that the value stands for, or nothing.
    fn into_option_string(self) -> (r: Option<String>)
        ensures
            self.stands_for(r),
    ;
}

impl IntoOptionString for &str {
    open spec fn stands_for(self, r: Option<String>) -> bool {
        r is Some && r->Some_0@ == self@
    }

    fn into_option_string(self) -> (r: Option<String>) {
        Some(self.to_owned())
    }
}

impl IntoOptionString for String {
    open spec fn stands_for(self, r: Option<String>) -> bool {
        r == Some(self)
    }

    fn into_option_string(self) -> (r: Option<String>) {
        Some(self)
    }
}

impl IntoOptionString for &String {
    open spec fn stands_for(self, r: Option<String>) -> bool {
        r is Some && r->Some_0@ == self@
    }

    fn into_option_string(self) -> (r: Option<String>) {
        Some(self.as_str().to_owned())
    }
}

impl<T: Into<String>> IntoOptionString for Option<T> {
    open spec fn stands_for(self, r: Option<String>) -> bool {
        match self {
            Some(v) => r is Some && call_ensures(T::into, (v,), r->Some_0),
            None => r is None,
        }
    }

    fn into_option_string(self) -> (r: Option<String>) {
        match self {
            Some(v) => Some(v.into()),
            None => None,
        }
    }
}

/// The items of a list, each converted, in their order.
pub fn into_flex_vec<T, U: Into<T>>(items: Vec<U>) -> (r: Vec<T>)
    ensures
        r@.len() == items@.len(),
        forall|i: int|
            0 <= i < items@.len() ==> call_ensures(U::into, (items@[i],), #[trigger] r@[i]),
{
    let ghost all = items@;
    let mut rest: Vec<U> = items;
    let mut r: Vec<T> = Vec::new();
    while rest.len() > 0
        invariant
            rest@ == all.skip(r@.len() as int),
            r@.len() <= all.len(),
            forall|i: int|
                0 <= i < r@.len() ==> call_ensures(U::into, (all[i],), #[trigger] r@[i]),
        decreases rest.len(),
    {
        let ghost done = r@.len() as int;
        let item: U = rest.remove(0);
        proof {
            assert(item == all[done]);
            assert(rest@ =~= all.skip(done + 1));
        }
        r.push(item.into());
    }
    r
}

} // verus!
