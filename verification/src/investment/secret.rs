//! Credentials that are carried but never rendered.
use vstd::prelude::*;

verus! {

/// A credential (bot token, chat id). Its text is reachable only through
/// [`Secret::expose`]; debug renderings print `[redacted]` instead.
pub struct Secret {
    value: String,
}

impl View for Secret {
    type V = Seq<char>;

    closed spec fn view(&self) -> Seq<char> {
        self.value@
    }
}

impl Secret {
    pub fn new(value: String) -> (r: Secret)
        ensures
            r@ == value@,
    {
        Secret { value }
    }

    /// The credential's text, for building a request.
    pub fn expose(&self) -> (r: &str)
        ensures
            r@ == self@,
    {
        self.value.as_str()
    }

    pub fn is_empty(&self) -> (r: bool)
        ensures
            r == (self@.len() == 0),
    {
        self.value.as_str().is_empty()
    }

    pub fn duplicate(&self) -> (r: Secret)
        ensures
            r@ == self@,
    {
        Secret { value: self.value.clone() }
    }
}

/// Chat ids allowed to talk to the bot; only their count is ever rendered.
pub struct ChatAllowlist {
    ids: Vec<String>,
}

pub open spec fn string_views(v: Seq<String>) -> Seq<Seq<char>> {
    Seq::new(v.len(), |i: int| v[i]@)
}

impl View for ChatAllowlist {
    type V = Seq<Seq<char>>;

    closed spec fn view(&self) -> Seq<Seq<char>> {
        string_views(self.ids@)
    }
}

impl ChatAllowlist {
    pub fn new(ids: Vec<String>) -> (r: ChatAllowlist)
        ensures
            r@ == string_views(ids@),
    {
        ChatAllowlist { ids }
    }

    pub fn len(&self) -> (r: usize)
        ensures
            r == self@.len(),
    {
        self.ids.len()
    }

    /// Whether `chat_id` is allowed.
    pub fn contains(&self, chat_id: &str) -> (r: bool)
        ensures
            r == self@.contains(chat_id@),
    {
        let c = crate::text::to_chars(chat_id);
        let mut i: usize = 0;
        while i < self.ids.len()
            invariant
                i <= self.ids@.len(),
                forall|k: int| 0 <= k < i ==> self.ids@[k]@ != c@,
                c@ == chat_id@,
            decreases self.ids@.len() - i,
        {
            let k = crate::text::to_chars(self.ids[i].as_str());
            if crate::text::chars_eq(k.as_slice(), c.as_slice()) {
                assert(self@[i as int] == chat_id@);
                return true;
            }
            i = i + 1;
        }
        proof {
            if self@.contains(chat_id@) {
                let k = choose|k: int| 0 <= k < self@.len() && self@[k] == chat_id@;
                assert(self.ids@[k]@ == chat_id@);
            }
        }
        false
    }

    pub fn duplicate(&self) -> (r: ChatAllowlist)
        ensures
            r@ == self@,
    {
        let mut ids: Vec<String> = Vec::new();
        let mut i: usize = 0;
        while i < self.ids.len()
            invariant
                i <= self.ids@.len(),
                ids@.len() == i,
                forall|k: int| 0 <= k < i ==> (#[trigger] ids@[k])@ == self.ids@[k]@,
            decreases self.ids@.len() - i,
        {
            ids.push(self.ids[i].clone());
            i = i + 1;
        }
        let r = ChatAllowlist { ids };
        assert(r@ =~= self@);
        r
    }
}

} // verus!
