use crate::i18n::strings::{join_dots, joined, views};
use vstd::prelude::*;

verus! {

/// The texts of a translation: one text, or texts under keys, which may
/// hold dictionaries in turn. Where a key stands twice, the first entry is
/// the one that is found.
pub enum Text {
    Value(String),
    Texts(Vec<(String, Text)>),
}

impl Default for Text {
    /// A dictionary without entries.
    fn default() -> (text: Text)
        ensures
            text matches Text::Texts(entries) && entries@.len() == 0,
    {
        Text::Texts(Vec::new())
    }
}

/// `i` is the place of the first entry of `entries` under `key`.
pub open spec fn under(entries: Seq<(String, Text)>, key: Seq<char>, i: int) -> bool {
    &&& 0 <= i < entries.len()
    &&& entries[i].0@ == key
    &&& forall|j: int| 0 <= j < i ==> (#[trigger] entries[j]).0@ != key
}

/// The place of the first entry of `entries` under `key`, if there is one.
pub open spec fn place_of(entries: Seq<(String, Text)>, key: Seq<char>) -> Option<int> {
    if exists|i: int| under(entries, key, i) {
        Some(choose|i: int| under(entries, key, i))
    } else {
        None
    }
}

impl Text {
    /// What a query with `steps` finds, and the steps that it leaves.
    ///
    /// A text is found whatever steps are left. A dictionary is searched,
    /// with steps left, under the first of them, which is used up whether it
    /// is a key or not. If the entry under it gives nothing, the dictionary
    /// is searched once more, under all the steps it was asked with, joined
    /// by dots, as one key; that entry is then asked with what steps the
    /// first search has left.
    pub open spec fn lookup(self, steps: Seq<Seq<char>>) -> (Option<Seq<char>>, Seq<Seq<char>>)
        decreases self,
    {
        match self {
            Text::Value(value) => (Some(value@), steps),
            Text::Texts(entries) => {
                if steps.len() == 0 {
                    (None, steps)
                } else {
                    let rest = steps.drop_first();
                    match place_of(entries@, steps[0]) {
                        None => (None, rest),
                        Some(k) => {
                            let deep = entries[k].1.lookup(rest);
                            if deep.0 is Some {
                                deep
                            } else {
                                match place_of(entries@, joined(steps)) {
                                    None => deep,
                                    Some(j) => entries[j].1.lookup(deep.1),
                                }
                            }
                        },
                    }
                }
            },
        }
    }
}

impl Text {
    /// What following `steps` one by one leads to: each step is a key of the
    /// dictionary that the steps before it have led to, and the last one is
    /// the key of a text.
    pub open spec fn descent(self, steps: Seq<Seq<char>>) -> Option<Seq<char>>
        decreases self,
    {
        match self {
            Text::Value(value) => if steps.len() == 0 {
                Some(value@)
            } else {
                None
            },
            Text::Texts(entries) => {
                if steps.len() == 0 {
                    None
                } else {
                    match place_of(entries@, steps[0]) {
                        None => None,
                        Some(k) => entries[k].1.descent(steps.drop_first()),
                    }
                }
            },
        }
    }

    /// Where following the steps one by one leads to a text, a query finds
    /// that text and uses all the steps up.
    pub proof fn lemma_lookup_follows_descent(self, steps: Seq<Seq<char>>)
        requires
            self.descent(steps) is Some,
        ensures
            self.lookup(steps) == (self.descent(steps), Seq::<Seq<char>>::empty()),
        decreases self,
    {
        match self {
            Text::Value(_) => {},
            Text::Texts(entries) => {
                let k = place_of(entries@, steps[0])->0;
                entries[k].1.lemma_lookup_follows_descent(steps.drop_first());
            },
        }
    }
}

/// The first entry of `entries` under `key`.
fn find(entries: &Vec<(String, Text)>, key: &str) -> (at: Option<usize>)
    ensures
        match at {
            Some(k) => under(entries@, key@, k as int) && place_of(entries@, key@) == Some(
                k as int,
            ),
            None => place_of(entries@, key@) is None,
        },
{
    let wanted = key.to_owned();
    let mut i: usize = 0;
    while i < entries.len()
        invariant
            i <= entries@.len(),
            wanted@ == key@,
            forall|j: int| 0 <= j < i ==> (#[trigger] entries@[j]).0@ != key@,
        decreases entries@.len() - i,
    {
        if entries[i].0 == wanted {
            return Some(i);
        }
        i += 1;
    }
    None
}

impl Text {
    /// Follows `steps` into the texts and returns the text that they lead
    /// to. The steps that were used up are taken off `steps`.
    pub fn query(&self, steps: &mut Vec<&str>) -> (found: Option<String>)
        ensures
            match found {
                Some(text) => self.lookup(views(old(steps)@)).0 == Some(text@),
                None => self.lookup(views(old(steps)@)).0 is None,
            },
            views(final(steps)@) == self.lookup(views(old(steps)@)).1,
        decreases self,
    {
        match self {
            Text::Texts(texts) => {
                if steps.len() == 0 {
                    return None;
                }
                let current_path = join_dots(steps);
                let ghost asked = views(steps@);
                let this_step = steps.remove(0);
                assert(views(steps@) =~= asked.drop_first());
                let k = match find(texts, this_step) {
                    Some(k) => k,
                    None => {
                        return None;
                    },
                };
                let res = texts[k].1.query(steps);
                if res.is_none() {
                    match find(texts, current_path.as_str()) {
                        Some(j) => {
                            return texts[j].1.query(steps);
                        },
                        None => {},
                    }
                }
                res
            },
            Text::Value(value) => Some(value.clone()),
        }
    }
}

} // verus!
