use crate::i18n::strings::{dotted, replace_first, replaced_first, split_dots};
use crate::i18n::text::Text;
use vstd::prelude::*;

verus! {

/// The texts of one language.
pub struct Language {
    /// The identifier of the language, such as `en-US`.
    pub id: String,
    pub texts: Text,
}

/// What stands in a text for the parameter `name`: the name in braces.
pub open spec fn placeholder(name: Seq<char>) -> Seq<char> {
    seq!['{'] + name + seq!['}']
}

/// The names and values of `params`, as what they hold.
pub open spec fn param_views(params: Seq<(&str, String)>) -> Seq<(Seq<char>, Seq<char>)> {
    Seq::new(params.len(), |i: int| (params[i].0@, params[i].1@))
}

/// `text` with the parameters filled in, one after the other: each value
/// takes the place of the first placeholder of its name in what the
/// parameters before it have made of the text.
pub open spec fn filled(text: Seq<char>, params: Seq<(Seq<char>, Seq<char>)>) -> Seq<char>
    decreases params.len(),
{
    if params.len() == 0 {
        text
    } else {
        replaced_first(
            filled(text, params.drop_last()),
            placeholder(params.last().0),
            params.last().1,
        )
    }
}

impl Language {
    /// The text that the dotted `path` leads to, and the empty text where
    /// it leads to none.
    pub open spec fn text_at(&self, path: Seq<char>) -> Seq<char> {
        match self.texts.lookup(dotted(path)).0 {
            Some(text) => text,
            None => Seq::empty(),
        }
    }

    /// The text at `path` with `params` filled in.
    pub open spec fn text(&self, path: Seq<char>, params: Seq<(Seq<char>, Seq<char>)>) -> Seq<
        char,
    > {
        filled(self.text_at(path), params)
    }

    /// The text that the dotted `path` leads to, with `params` filled in, in
    /// the order in which they are given. A path that leads nowhere gives
    /// the empty text. The result is always `Some`.
    pub fn get_text(&self, path: &str, params: Vec<(&str, String)>) -> (text: Option<String>)
        ensures
            text matches Some(t) && t@ == self.text(path@, param_views(params@)),
    {
        let mut steps = split_dots(path);
        let mut text = match self.texts.query(&mut steps) {
            Some(found) => found,
            None => String::new(),
        };
        let mut i: usize = 0;
        while i < params.len()
            invariant
                i <= params@.len(),
                text@ == filled(self.text_at(path@), param_views(params@).take(i as int)),
            decreases params@.len() - i,
        {
            let ghost done = param_views(params@).take(i as int);
            let ghost now = param_views(params@).take(i + 1);
            assert(now.drop_last() =~= done);
            proof {
                reveal_strlit("{");
                reveal_strlit("}");
            }
            let mut pattern = "{".to_owned();
            pattern.append(params[i].0);
            pattern.append("}");
            assert(pattern@ =~= placeholder(params@[i as int].0@));
            text = replace_first(text.as_str(), pattern.as_str(), params[i].1.as_str());
            i += 1;
        }
        assert(param_views(params@).take(params@.len() as int) =~= param_views(params@));
        Some(text)
    }
}

/// `k` is the place of the first of `languages` whose identifier is `id`.
pub open spec fn speaks(languages: Seq<Language>, id: Seq<char>, k: int) -> bool {
    &&& 0 <= k < languages.len()
    &&& languages[k].id@ == id
    &&& forall|j: int| 0 <= j < k ==> (#[trigger] languages[j]).id@ != id
}

/// The place of the first of `languages` whose identifier is `id`, if
/// there is one.
pub open spec fn speaker_of(languages: Seq<Language>, id: Seq<char>) -> Option<int> {
    if exists|k: int| speaks(languages, id, k) {
        Some(choose|k: int| speaks(languages, id, k))
    } else {
        None
    }
}

/// The first of `languages` whose identifier is `id`.
fn speaker(languages: &Vec<Language>, id: &String) -> (at: Option<usize>)
    ensures
        match at {
            Some(k) => speaker_of(languages@, id@) == Some(k as int) && k < languages@.len(),
            None => speaker_of(languages@, id@) is None,
        },
{
    let mut i: usize = 0;
    while i < languages.len()
        invariant
            i <= languages@.len(),
            forall|j: int| 0 <= j < i ==> (#[trigger] languages@[j]).id@ != id@,
        decreases languages@.len() - i,
    {
        if languages[i].id == *id {
            assert(speaks(languages@, id@, i as int));
            return Some(i);
        }
        i += 1;
    }
    None
}

/// The languages that an interface can show, and the one to fall back on.
pub struct UseInitI18Data {
    pub languages: Vec<Language>,
    pub fallback_language: String,
}

/// The translations of an interface, with the language that is selected.
pub struct UseI18 {
    pub selected_language: String,
    pub data: UseInitI18Data,
}

/// The translations `data` with `selected_language` selected.
pub fn use_i18(selected_language: String, data: UseInitI18Data) -> (i18: UseI18)
    ensures
        i18.selected_language == selected_language,
        i18.data == data,
{
    UseI18 { selected_language, data }
}

impl UseI18 {
    /// The translation of `id` with `params` filled in: the text of the
    /// selected language if that language is there, else the text of the
    /// fallback language if that one is there, else `id` itself. A language
    /// that is there and has no text at `id` gives the empty text.
    pub open spec fn translation(&self, id: Seq<char>, params: Seq<(Seq<char>, Seq<char>)>) -> Seq<
        char,
    > {
        match speaker_of(self.data.languages@, self.selected_language@) {
            Some(k) => self.data.languages@[k].text(id, params),
            None => match speaker_of(self.data.languages@, self.data.fallback_language@) {
                Some(k) => self.data.languages@[k].text(id, params),
                None => id,
            },
        }
    }

    /// Translates `id` and fills `params` in.
    pub fn translate_with_params(&self, id: &str, params: Vec<(&str, String)>) -> (text: String)
        ensures
            text@ == self.translation(id@, param_views(params@)),
    {
        let at = match speaker(&self.data.languages, &self.selected_language) {
            Some(k) => Some(k),
            None => speaker(&self.data.languages, &self.data.fallback_language),
        };
        match at {
            Some(k) => match self.data.languages[k].get_text(id, params) {
                Some(text) => text,
                None => String::new(),
            },
            None => id.to_owned(),
        }
    }

    /// Translates `id`.
    pub fn translate(&self, id: &str) -> (text: String)
        ensures
            text@ == self.translation(id@, Seq::empty()),
    {
        let params: Vec<(&str, String)> = Vec::new();
        self.translate_with_params(id, params)
    }

    /// Selects the language `id`.
    pub fn set_language(&mut self, id: String)
        ensures
            final(self).selected_language == id,
            final(self).data == old(self).data,
    {
        self.selected_language = id;
    }
}

} // verus!
