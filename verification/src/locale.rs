//! Choosing the interface language from the environment, the user's wish
//! and the languages the translations exist for.

use vstd::prelude::*;

use crate::report::{message2, message_is, Message};
use crate::text::{
    append_text, chars_of, find, find_from_exec, lemma_find_from_is_first, same_text,
    string_of_range, unicode_lowercase, vec_of_range,
};

verus! {

/// The part of `s` before the first `c`, or all of `s` without one, as
/// `s.split(c).next()` gives it.
pub open spec fn before_first(s: Seq<char>, c: char) -> Seq<char> {
    match find(s, seq![c]) {
        Some(i) => s.subrange(0, i as int),
        None => s,
    }
}

/// The language of a locale setting such as `de_DE.UTF-8`: the part before
/// the encoding and the territory, in lower case.
pub open spec fn locale_language(value: Seq<char>) -> Seq<char> {
    unicode_lowercase(before_first(before_first(value, '.'), '_'))
}

/// `'.'` or `'_'`, which end the language part of a locale setting.
pub open spec fn is_locale_separator(c: char) -> bool {
    c == '.' || c == '_'
}

/// Position `k` of `v` is where its language part ends: no separator comes
/// before it, and it is the end of `v` or a separator.
pub open spec fn is_language_end(v: Seq<char>, k: int) -> bool {
    &&& forall|j: int| 0 <= j < k ==> !is_locale_separator(#[trigger] v[j])
    &&& (k == v.len() || is_locale_separator(v[k]))
}

/// The texts of a list of string slices.
pub open spec fn texts(list: Seq<&str>) -> Seq<Seq<char>> {
    list.map_values(|s: &str| s@)
}

/// The items of `list` with `sep` between each two, as `join` gives them.
pub open spec fn joined_with(list: Seq<Seq<char>>, sep: Seq<char>) -> Seq<char>
    decreases list.len(),
{
    if list.len() == 0 {
        Seq::empty()
    } else if list.len() == 1 {
        list[0]
    } else {
        joined_with(list.drop_last(), sep) + sep + list.last()
    }
}

/// The interface language chosen, and the warning to print first, if any.
pub struct LocaleChoice {
    pub locale: String,
    pub warning: Option<Message>,
}

/// The language named by the first locale variable that is set (`value`),
/// or English when none is.
pub fn locale_from_env_value(value: Option<&str>) -> (r: String)
    ensures
        match value {
            Some(v) => r@ == locale_language(v@),
            None => r@ == "en"@,
        },
        value matches Some(v) ==> exists|k: int|
            0 <= k <= v@.len() && is_language_end(v@, k) && r@ == unicode_lowercase(v@.take(k)),
{
    match value {
        None => "en".to_owned(),
        Some(v) => {
            let chars = chars_of(v);
            let mut dot: Vec<char> = Vec::new();
            dot.push('.');
            let mut underscore: Vec<char> = Vec::new();
            underscore.push('_');
            assert(dot@ =~= seq!['.']);
            assert(underscore@ =~= seq!['_']);
            let end = match find_from_exec(&chars, &dot, 0) {
                Some(i) => i,
                None => chars.len(),
            };
            proof {
                lemma_find_from_is_first(chars@, dot@, 0);
            }
            let language = vec_of_range(&chars, 0, end);
            assert(language@ == before_first(v@, '.')) by {
                if find(v@, seq!['.']) is None {
                    assert(chars@.subrange(0, chars@.len() as int) =~= chars@);
                }
            }
            let end2 = match find_from_exec(&language, &underscore, 0) {
                Some(i) => i,
                None => language.len(),
            };
            proof {
                lemma_find_from_is_first(language@, underscore@, 0);
            }
            let prefix = string_of_range(&language, 0, end2);
            assert(prefix@ == before_first(before_first(v@, '.'), '_')) by {
                if find(language@, seq!['_']) is None {
                    assert(language@.subrange(0, language@.len() as int) =~= language@);
                }
            }
            proof {
                lemma_locale_language_cuts_at_first_separator(v@);
            }
            prefix.as_str().to_lowercase()
        },
    }
}

/// Whether `list` holds the text `t`.
fn list_contains(list: &[&str], t: &str) -> (r: bool)
    ensures
        r == texts(list@).contains(t@),
{
    let mut i: usize = 0;
    while i < list.len()
        invariant
            i <= list@.len(),
            forall|j: int| 0 <= j < i ==> list@[j]@ != t@,
        decreases list.len() - i,
    {
        if same_text(list[i], t) {
            assert(texts(list@)[i as int] == t@);
            return true;
        }
        i += 1;
    }
    assert forall|j: int| 0 <= j < texts(list@).len() implies texts(list@)[j] != t@ by {
        assert(texts(list@)[j] == list@[j]@);
    }
    false
}

/// The items of `list` joined with `sep`.
fn join_texts(list: &[&str], sep: &str) -> (r: String)
    ensures
        r@ == joined_with(texts(list@), sep@),
{
    let mut s = String::new();
    let mut i: usize = 0;
    let ghost all = texts(list@);
    assert(all.take(0) =~= Seq::<Seq<char>>::empty());
    while i < list.len()
        invariant
            i <= list@.len(),
            all == texts(list@),
            s@ == joined_with(all.take(i as int), sep@),
        decreases list.len() - i,
    {
        let ghost before = s@;
        if i > 0 {
            append_text(&mut s, sep);
        }
        append_text(&mut s, list[i]);
        proof {
            let next = all.take(i + 1);
            assert(next.drop_last() =~= all.take(i as int));
            assert(next.last() == list@[i as int]@);
            if i == 0 {
                assert(s@ =~= next[0]);
            } else {
                assert(s@ =~= before + sep@ + next.last());
            }
        }
        i += 1;
    }
    assert(all.take(list@.len() as int) =~= all);
    s
}

/// Choose the interface language: the user's wish (in lower case) when the
/// translations exist for it; otherwise the system's language when they
/// exist for that, and English failing both. A wish that cannot be met comes
/// with a warning that names it and the languages there are.
pub fn determine_locale(user_lang: &str, system_locale: &str, available_locales: &[&str]) -> (r:
    LocaleChoice)
    ensures
        r.locale@ == "en"@ || texts(available_locales@).contains(r.locale@),
        ({
            let user = unicode_lowercase(user_lang@);
            let available = texts(available_locales@);
            if user_lang@.len() > 0 && available.contains(user) {
                r.locale@ == user && r.warning is None
            } else {
                &&& r.locale@ == (if available.contains(system_locale@) {
                    system_locale@
                } else {
                    "en"@
                })
                &&& user_lang@.len() == 0 ==> r.warning is None
                &&& user_lang@.len() > 0 ==> (r.warning matches Some(m) && message_is(
                    m,
                    "autodetect.locale_not_supported"@,
                    seq![("locale"@, user), ("available"@, joined_with(available, ", "@))],
                ))
            }
        }),
{
    let mut warning: Option<Message> = None;
    if !user_lang.is_empty() {
        let user_locale = user_lang.to_lowercase();
        if list_contains(available_locales, user_locale.as_str()) {
            return LocaleChoice { locale: user_locale, warning: None };
        }
        let available = join_texts(available_locales, ", ");
        warning = Some(
            message2(
                "autodetect.locale_not_supported",
                "locale",
                user_locale,
                "available",
                available,
            ),
        );
    }
    if list_contains(available_locales, system_locale) {
        return LocaleChoice { locale: system_locale.to_owned(), warning };
    }
    LocaleChoice { locale: "en".to_owned(), warning }
}

/// `before_first` keeps the text up to the first `c`, which is the end of
/// the text or a `c`.
proof fn lemma_before_first(s: Seq<char>, c: char)
    ensures
        ({
            let k = match find(s, seq![c]) {
                Some(i) => i as int,
                None => s.len() as int,
            };
            &&& 0 <= k <= s.len()
            &&& before_first(s, c) == s.take(k)
            &&& forall|j: int| 0 <= j < k ==> #[trigger] s[j] != c
            &&& (k == s.len() || s[k] == c)
        }),
{
    lemma_find_from_is_first(s, seq![c], 0);
    let k = match find(s, seq![c]) {
        Some(i) => i as int,
        None => s.len() as int,
    };
    assert forall|j: int| 0 <= j < k implies #[trigger] s[j] != c by {
        if s[j] == c {
            assert(s.subrange(j, j + 1) =~= seq![c]);
            assert(crate::text::occurs_at(s, seq![c], j));
        }
    }
    if k < s.len() {
        assert(s.subrange(k, k + 1)[0] == s[k]);
    }
    assert(before_first(s, c) =~= s.take(k));
}

/// The language of a locale setting is the lower-cased text before its first
/// `.` or `_`, whichever comes first, or the whole setting without either.
pub proof fn lemma_locale_language_cuts_at_first_separator(v: Seq<char>)
    ensures
        exists|k: int|
            0 <= k <= v.len() && is_language_end(v, k) && locale_language(v) == unicode_lowercase(
                v.take(k),
            ),
{
    lemma_before_first(v, '.');
    let d = before_first(v, '.');
    let k1 = d.len() as int;
    lemma_before_first(d, '_');
    let k2 = before_first(d, '_').len() as int;
    assert(before_first(d, '_') =~= v.take(k2));
    assert forall|j: int| 0 <= j < k2 implies !is_locale_separator(#[trigger] v[j]) by {
        assert(v[j] == d[j]);
    }
    if k2 < k1 {
        assert(v[k2] == d[k2]);
    }
    assert(is_language_end(v, k2));
}

/// The territory is cut off whether or not an encoding follows it:
/// `de_DE` names the same language as `de`.
pub proof fn lemma_locale_language_drops_territory(p: Seq<char>, t: Seq<char>)
    requires
        forall|j: int| 0 <= j < p.len() ==> !is_locale_separator(#[trigger] p[j]),
    ensures
        locale_language(p + seq!['_'] + t) == unicode_lowercase(p),
{
    let v = p + seq!['_'] + t;
    lemma_locale_language_cuts_at_first_separator(v);
    let k = choose|k: int|
        0 <= k <= v.len() && is_language_end(v, k) && locale_language(v) == unicode_lowercase(
            v.take(k),
        );
    assert(v[p.len() as int] == '_');
    if k > p.len() {
        assert(!is_locale_separator(v[p.len() as int]));
    }
    if k < p.len() {
        assert(v[k] == p[k]);
    }
    assert(v.take(p.len() as int) =~= p);
}

} // verus!
