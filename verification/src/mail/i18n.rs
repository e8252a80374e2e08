//! Translations for outbound mail.
//!
//! A recipient's stored language picks the table; an unset or unsupported
//! value falls back to the configured default language, and then to
//! English.

use vstd::prelude::*;
use crate::text::{
    ascii_lower_seq, ascii_lower_vec, chars_eq, chars_of, replace_all, replace_all_exec,
    str_eq, string_of, trim, trimmed_chars,
};
use crate::split::{next_sep, next_sep_exec, lemma_next_sep_bounds};
use crate::search::{holds_id, insert_sorted, strictly_sorted};

verus! {

/// One language's mail strings: its tag and its dictionary of key/text
/// pairs.
pub struct MailStrings {
    /// `en` or `zh`.
    pub lang: &'static str,
    pub dict: Vec<(String, String)>,
}

/// The text of `key` in a dictionary: the first pair with that key.
pub open spec fn dict_get(dict: Seq<(String, String)>, key: Seq<char>) -> Option<Seq<char>>
    decreases dict.len(),
{
    if dict.len() == 0 {
        None
    } else if dict[0].0@ == key {
        Some(dict[0].1@)
    } else {
        dict_get(dict.drop_first(), key)
    }
}

/// What `tr` yields: the translation, or the key itself when it is missing.
pub open spec fn tr_spec(dict: Seq<(String, String)>, key: Seq<char>) -> Seq<char> {
    match dict_get(dict, key) {
        Some(t) => t,
        None => key,
    }
}

/// The placeholder for `name`: `{name}`.
pub open spec fn placeholder(name: Seq<char>) -> Seq<char> {
    seq!['{'] + name + seq!['}']
}

/// Substitute the placeholders of `args`, in order, into `text`.
pub open spec fn substitute(text: Seq<char>, args: Seq<(Seq<char>, Seq<char>)>) -> Seq<char>
    decreases args.len(),
{
    if args.len() == 0 {
        text
    } else {
        replace_all(substitute(text, args.drop_last()), placeholder(args.last().0), args.last().1)
    }
}

/// The arguments of a `trf` call as pairs of texts.
pub open spec fn args_view(args: Seq<(&str, String)>) -> Seq<(Seq<char>, Seq<char>)> {
    args.map_values(|a: (&str, String)| (a.0@, a.1@))
}

/// The language a tag names, if it is one the mail tables cover: the primary
/// subtag (before `-` or `_`), trimmed and ASCII-lowered, must be `en` or
/// `zh`, so `zh-CN` and `zh_tw` both read as Chinese.
pub open spec fn normalize_lang_spec(value: Seq<char>) -> Option<Seq<char>> {
    let v = ascii_lower_seq(trim(value));
    let primary = v.take(next_sep(v, '_', 0)).take(next_sep(v.take(next_sep(v, '_', 0)), '-', 0));
    if primary == "zh"@ {
        Some("zh"@)
    } else if primary == "en"@ {
        Some("en"@)
    } else {
        None
    }
}

/// The mail language a tag names, if any.
pub fn normalize_lang(value: &str) -> (r: Option<&'static str>)
    ensures
        match r {
            Some(l) => normalize_lang_spec(value@) == Some(l@),
            None => normalize_lang_spec(value@) is None,
        },
{
    let t = trimmed_chars(value);
    let v = ascii_lower_vec(t.as_slice());
    let u = next_sep_exec(v.as_slice(), '_', 0);
    proof {
        lemma_next_sep_bounds(v@, '_', 0);
    }
    let a = crate::text::slice_range(v.as_slice(), 0, u);
    let h = next_sep_exec(a.as_slice(), '-', 0);
    proof {
        lemma_next_sep_bounds(a@, '-', 0);
    }
    let primary = crate::text::slice_range(a.as_slice(), 0, h);
    proof {
        assert(a@ =~= v@.take(next_sep(v@, '_', 0)));
        assert(primary@ =~= a@.take(next_sep(a@, '-', 0)));
    }
    let zh = chars_of("zh");
    let en = chars_of("en");
    if chars_eq(primary.as_slice(), zh.as_slice()) {
        Some("zh")
    } else if chars_eq(primary.as_slice(), en.as_slice()) {
        Some("en")
    } else {
        None
    }
}

/// Which table [`MailStrings::get`] picks: the recipient's language when the
/// mail tables cover it, else the site default's, and Chinese only when the
/// one picked is Chinese.
pub open spec fn picks_zh(lang: Option<Seq<char>>, default_lang: Seq<char>) -> bool {
    let from_user = match lang {
        Some(l) => normalize_lang_spec(l),
        None => None,
    };
    let resolved = match from_user {
        Some(x) => Some(x),
        None => normalize_lang_spec(default_lang),
    };
    resolved == Some("zh"@)
}

impl MailStrings {
    /// A table for `lang` with the given key/text pairs.
    pub fn new(lang: &'static str, dict: Vec<(String, String)>) -> (s: MailStrings)
        ensures
            s.lang == lang,
            s.dict@ == dict@,
    {
        MailStrings { lang, dict }
    }

    /// The table for a language tag, falling back to the site default and
    /// then to English; there is no "unknown" table.
    pub fn get<'a>(
        lang: Option<&str>,
        default_lang: &str,
        en: &'a MailStrings,
        zh: &'a MailStrings,
    ) -> (s: &'a MailStrings)
        ensures
            s == (if picks_zh(
                match lang { Some(l) => Some(l@), None => None },
                default_lang@,
            ) {
                zh
            } else {
                en
            }),
    {
        let from_user = match lang {
            Some(l) => normalize_lang(l),
            None => None,
        };
        let resolved = match from_user {
            Some(x) => Some(x),
            None => normalize_lang(default_lang),
        };
        let is_zh = match resolved {
            Some(x) => str_eq(x, "zh"),
            None => false,
        };
        proof {
            reveal_strlit("zh");
            reveal_strlit("en");
        }
        if is_zh {
            zh
        } else {
            en
        }
    }

    /// Translate a key; a missing key returns the key itself, so an
    /// untranslated string is obvious instead of blank.
    pub fn tr<'k>(&'k self, key: &'k str) -> (t: &'k str)
        ensures
            t@ == tr_spec(self.dict@, key@),
    {
        let mut i: usize = 0;
        proof {
            assert(self.dict@.skip(0) =~= self.dict@);
        }
        while i < self.dict.len()
            invariant
                i <= self.dict@.len(),
                dict_get(self.dict@, key@) == dict_get(self.dict@.skip(i as int), key@),
            decreases self.dict@.len() - i,
        {
            proof {
                assert(self.dict@.skip(i as int).drop_first() =~= self.dict@.skip(i + 1));
            }
            if str_eq(self.dict[i].0.as_str(), key) {
                return self.dict[i].1.as_str();
            }
            i = i + 1;
        }
        key
    }

    /// Translate and substitute `{name}` placeholders, one argument after the
    /// other.
    pub fn trf(&self, key: &str, args: &[(&str, String)]) -> (out: String)
        ensures
            out@ == substitute(tr_spec(self.dict@, key@), args_view(args@)),
    {
        let base = self.tr(key);
        let mut out = chars_of(base);
        let mut i: usize = 0;
        while i < args.len()
            invariant
                i <= args@.len(),
                out@ == substitute(tr_spec(self.dict@, key@), args_view(args@.take(i as int))),
            decreases args@.len() - i,
        {
            let mut pat: Vec<char> = Vec::new();
            pat.push('{');
            let name = chars_of(args[i].0);
            let mut k: usize = 0;
            while k < name.len()
                invariant
                    k <= name@.len(),
                    pat@ == seq!['{'] + name@.take(k as int),
                decreases name@.len() - k,
            {
                pat.push(name[k]);
                k = k + 1;
                proof {
                    assert(pat@ =~= seq!['{'] + name@.take(k as int));
                }
            }
            pat.push('}');
            let value = chars_of(args[i].1.as_str());
            proof {
                assert(name@.take(k as int) =~= name@);
                assert(pat@ =~= placeholder(args@[i as int].0@));
                assert(args_view(args@.take(i + 1)).drop_last() =~= args_view(args@.take(i as int)));
                assert(args_view(args@.take(i + 1)).last() == (args@[i as int].0@, args@[i as int].1@));
            }
            out = replace_all_exec(out.as_slice(), pat.as_slice(), value.as_slice());
            i = i + 1;
        }
        proof {
            assert(args@.take(i as int) =~= args@);
        }
        string_of(out.as_slice())
    }
}

/// Whether the table defines this key.
pub open spec fn defines_key(dict: Seq<(String, String)>, key: Seq<char>) -> bool {
    exists|k: int| 0 <= k < dict.len() && #[trigger] dict[k].0@ == key
}

impl MailStrings {
    /// Every key this table defines, once each, in increasing order.
    pub fn keys(&self) -> (keys: Vec<String>)
        ensures
            strictly_sorted(keys@),
            forall|t: Seq<char>| holds_id(keys@, t) <==> defines_key(self.dict@, t),
    {
        let mut keys: Vec<String> = Vec::new();
        let mut i: usize = 0;
        while i < self.dict.len()
            invariant
                i <= self.dict@.len(),
                strictly_sorted(keys@),
                forall|t: Seq<char>| holds_id(keys@, t) <==> defines_key(self.dict@.take(i as int), t),
            decreases self.dict@.len() - i,
        {
            insert_sorted(&mut keys, &self.dict[i].0);
            proof {
                let tk = self.dict@.take(i + 1);
                let tp = self.dict@.take(i as int);
                assert forall|t: Seq<char>| defines_key(tk, t) <==> (defines_key(tp, t) || t == self.dict@[i as int].0@) by {
                    if defines_key(tk, t) {
                        let k = choose|k: int| 0 <= k < tk.len() && #[trigger] tk[k].0@ == t;
                        if k < i {
                            assert(tp[k] == tk[k]);
                        }
                    }
                    if defines_key(tp, t) {
                        let k = choose|k: int| 0 <= k < tp.len() && #[trigger] tp[k].0@ == t;
                        assert(tk[k] == tp[k]);
                    }
                    if t == self.dict@[i as int].0@ {
                        assert(tk[i as int].0@ == t);
                    }
                }
            }
            i = i + 1;
        }
        proof {
            assert(self.dict@.take(i as int) =~= self.dict@);
        }
        keys
    }
}

} // verus!
