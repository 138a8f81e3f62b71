//! The object element's `data` binding: deciding, from the element's
//! attributes, whether its data URL must be captured and its image
//! prefetched. The decision is pure; fetching itself is the image cache's
//! business and happens outside this library.

use vstd::prelude::*;
use vstd::string::StrSliceExecFns;

verus! {

/// An object element's attribute state that the `data` binding reads, and
/// the data URL captured from it.
pub struct HTMLObjectElement {
    /// The `type` attribute, if set.
    pub type_attr: Option<String>,
    /// The `data` attribute, if set.
    pub data_attr: Option<String>,
    /// The captured data URL; absent until `update_data` accepts one.
    pub data: Option<String>,
}

pub open spec fn starts_with_spec(s: Seq<char>, prefix: Seq<char>) -> bool {
    s.len() >= prefix.len() && s.subrange(0, prefix.len() as int) == prefix
}

/// Whether `s` begins with `prefix`, character by character.
pub fn str_starts_with(s: &str, prefix: &str) -> (r: bool)
    ensures
        r == starts_with_spec(s@, prefix@),
{
    let n = prefix.unicode_len();
    let m = s.unicode_len();
    if m < n {
        return false;
    }
    let mut i: usize = 0;
    while i < n
        invariant
            i <= n,
            n == prefix@.len(),
            n <= s@.len(),
            forall|j: int| 0 <= j < i ==> s@[j] == prefix@[j],
        decreases n - i,
    {
        if s.get_char(i) != prefix.get_char(i) {
            assert(s@.subrange(0, n as int)[i as int] != prefix@[i as int]);
            return false;
        }
        i += 1;
    }
    proof {
        assert(s@.subrange(0, n as int) =~= prefix@);
    }
    true
}

/// The prefix that marks an inline PNG data URL.
pub open spec fn png_data_prefix() -> Seq<char> {
    "data:image/png"@
}

/// When the element's attributes call for capturing the data URL: no `type`
/// attribute, and a `data` attribute holding an inline PNG data URL.
pub open spec fn update_applies(type_attr: Option<String>, data_attr: Option<String>) -> bool {
    &&& type_attr is None
    &&& data_attr matches Some(d) && starts_with_spec(d@, png_data_prefix())
}

impl HTMLObjectElement {
    /// A fresh element: the given attributes, and no data URL captured yet.
    pub fn new_inherited(type_attr: Option<String>, data_attr: Option<String>) -> (e: Self)
        ensures
            e.type_attr == type_attr,
            e.data_attr == data_attr,
            e.data is None,
    {
        HTMLObjectElement { type_attr, data_attr, data: None }
    }

    /// Make the `data` member match the status of the `data` attribute:
    /// when no `type` attribute is set and the `data` attribute holds an
    /// inline PNG data URL, capture it and return the URL text whose image
    /// the caller must prefetch; otherwise change nothing. Must be called
    /// after the `data` attribute changes. An accepted value is an absolute
    /// data URL, so resolving it against the page's base URL is the
    /// identity and the attribute text itself is captured.
    pub fn update_data(&mut self) -> (prefetch: Option<String>)
        ensures
            old(self).type_attr == final(self).type_attr,
            old(self).data_attr == final(self).data_attr,
            update_applies(old(self).type_attr, old(self).data_attr) ==> {
                &&& final(self).data matches Some(u) && u@ == old(self).data_attr.unwrap()@
                &&& prefetch matches Some(u) && u@ == old(self).data_attr.unwrap()@
            },
            !update_applies(old(self).type_attr, old(self).data_attr) ==> {
                &&& final(self).data == old(self).data
                &&& prefetch is None
            },
    {
        match (&self.type_attr, &self.data_attr) {
            (None, Some(data)) => {
                if str_starts_with(data.as_str(), "data:image/png") {
                    let url = clone_string(data);
                    let handed_out = clone_string(&url);
                    self.data = Some(url);
                    Some(handed_out)
                } else {
                    None
                }
            },
            _ => None,
        }
    }

    /// The element reacts to a change of its `data` attribute by refreshing
    /// the captured URL: the new value is stored, and when it now calls for
    /// a capture, the URL is captured and handed out for prefetching; other
    /// attributes change nothing here.
    pub fn after_set_attr(&mut self, name: &str, value: String) -> (prefetch: Option<String>)
        ensures
            name@ == "data"@ ==> {
                &&& final(self).data_attr matches Some(v) && v@ == value@
                &&& final(self).type_attr == old(self).type_attr
                &&& update_applies(old(self).type_attr, Some(value)) ==> {
                    &&& final(self).data matches Some(u) && u@ == value@
                    &&& prefetch matches Some(u) && u@ == value@
                }
                &&& !update_applies(old(self).type_attr, Some(value)) ==> {
                    &&& final(self).data == old(self).data
                    &&& prefetch is None
                }
            },
            name@ != "data"@ ==> *final(self) == *old(self) && prefetch is None,
    {
        if str_eq(name, "data") {
            self.data_attr = Some(value);
            self.update_data()
        } else {
            None
        }
    }

    /// The element reacts to the removal of its `data` attribute: the
    /// attribute is cleared, nothing is prefetched, and the captured URL of
    /// an earlier pass keeps its stale value until a new one replaces it.
    pub fn after_remove_attr(&mut self, name: &str) -> (prefetch: Option<String>)
        ensures
            name@ == "data"@ ==> {
                &&& final(self).data_attr is None
                &&& final(self).type_attr == old(self).type_attr
                &&& final(self).data == old(self).data
                &&& prefetch is None
            },
            name@ != "data"@ ==> *final(self) == *old(self) && prefetch is None,
    {
        if str_eq(name, "data") {
            self.data_attr = None;
            self.update_data()
        } else {
            None
        }
    }
}

/// Whether two strings hold the same characters.
pub fn str_eq(a: &str, b: &str) -> (r: bool)
    ensures
        r == (a@ == b@),
{
    let n = a.unicode_len();
    let m = b.unicode_len();
    if n != m {
        proof {
            assert(a@ != b@);
        }
        return false;
    }
    let mut i: usize = 0;
    while i < n
        invariant
            i <= n,
            n == a@.len(),
            n == b@.len(),
            forall|j: int| 0 <= j < i ==> a@[j] == b@[j],
        decreases n - i,
    {
        if a.get_char(i) != b.get_char(i) {
            return false;
        }
        i += 1;
    }
    proof {
        assert(a@ =~= b@);
    }
    true
}

fn clone_string(s: &String) -> (r: String)
    ensures
        r@ == s@,
{
    s.clone()
}

} // verus!
