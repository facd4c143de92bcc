//! Word and extension-list normalization.
//!
//! Every word read from the input stream is trimmed before it is sent to the
//! workers, and every extension is trimmed and given a leading dot.  The
//! trimming here follows the Unicode `White_Space` notion that `str::trim`
//! uses, implemented and verified directly over the characters.

use vstd::prelude::*;
use vstd::string::StrSliceExecFns;

verus! {

/// A character with the Unicode `White_Space` property.
pub open spec fn is_wspace(c: char) -> bool {
    let u = c as u32;
    (9 <= u <= 13) || u == 0x20 || u == 0x85 || u == 0xA0 || u == 0x1680
        || (0x2000 <= u <= 0x200A) || u == 0x2028 || u == 0x2029 || u == 0x202F
        || u == 0x205F || u == 0x3000
}

/// Executable form of [`is_wspace`].
pub fn is_wspace_char(c: char) -> (r: bool)
    ensures
        r == is_wspace(c),
{
    let u: u32 = c as u32;
    (9 <= u && u <= 13) || u == 0x20 || u == 0x85 || u == 0xA0 || u == 0x1680
        || (0x2000 <= u && u <= 0x200A) || u == 0x2028 || u == 0x2029 || u == 0x202F
        || u == 0x205F || u == 0x3000
}

/// `s` without its leading whitespace.
pub open spec fn trim_front_spec(s: Seq<char>) -> Seq<char>
    decreases s.len(),
{
    if s.len() > 0 && is_wspace(s[0]) {
        trim_front_spec(s.drop_first())
    } else {
        s
    }
}

/// `s` without its trailing whitespace.
pub open spec fn trim_back_spec(s: Seq<char>) -> Seq<char>
    decreases s.len(),
{
    if s.len() > 0 && is_wspace(s.last()) {
        trim_back_spec(s.drop_last())
    } else {
        s
    }
}

/// `s` without leading and trailing whitespace, as `str::trim` leaves it.
pub open spec fn trim_spec(s: Seq<char>) -> Seq<char> {
    trim_back_spec(trim_front_spec(s))
}

proof fn lemma_trim_front_prefix(s: Seq<char>, k: int)
    requires
        0 <= k <= s.len(),
        forall|j: int| 0 <= j < k ==> is_wspace(s[j]),
        k == s.len() || !is_wspace(s[k]),
    ensures
        trim_front_spec(s) == s.subrange(k, s.len() as int),
    decreases k,
{
    if k == 0 {
        assert(s.subrange(0, s.len() as int) =~= s);
    } else {
        lemma_trim_front_prefix(s.drop_first(), k - 1);
        assert(s.drop_first().subrange(k - 1, s.drop_first().len() as int)
            =~= s.subrange(k, s.len() as int));
    }
}

proof fn lemma_trim_back_suffix(s: Seq<char>, k: int)
    requires
        0 <= k <= s.len(),
        forall|j: int| k <= j < s.len() ==> is_wspace(s[j]),
        k == 0 || !is_wspace(s[k - 1]),
    ensures
        trim_back_spec(s) == s.subrange(0, k),
    decreases s.len() - k,
{
    if k == s.len() {
        assert(s.subrange(0, s.len() as int) =~= s);
    } else {
        lemma_trim_back_suffix(s.drop_last(), k);
        assert(s.drop_last().subrange(0, k) =~= s.subrange(0, k));
    }
}

/// Removes leading and trailing whitespace from a word, exactly as
/// `str::trim` would.
pub fn trim_str(s: &str) -> (r: &str)
    ensures
        r@ == trim_spec(s@),
{
    let len: usize = s.unicode_len();
    let mut start: usize = 0;
    while start < len && is_wspace_char(s.get_char(start))
        invariant
            0 <= start <= len,
            len == s@.len(),
            forall|j: int| 0 <= j < start ==> is_wspace(s@[j]),
        decreases len - start,
    {
        start = start + 1;
    }
    let mut end: usize = len;
    while end > start && is_wspace_char(s.get_char(end - 1))
        invariant
            start <= end <= len,
            len == s@.len(),
            forall|j: int| 0 <= j < start ==> is_wspace(s@[j]),
            start == len || !is_wspace(s@[start as int]),
            forall|j: int| end <= j < len ==> is_wspace(s@[j]),
        decreases end,
    {
        end = end - 1;
    }
    proof {
        lemma_trim_front_prefix(s@, start as int);
        let t = s@.subrange(start as int, len as int);
        lemma_trim_back_suffix(t, end - start);
        assert(t.subrange(0, end - start) =~= s@.subrange(start as int, end as int));
    }
    s.substring_char(start, end)
}

/// An extension, normalized: trimmed, and with a leading dot supplied when
/// it has none.  An empty or all-whitespace extension becomes the bare dot.
pub open spec fn normalize_ext_spec(s: Seq<char>) -> Seq<char> {
    let t = trim_spec(s);
    if t.len() > 0 && t[0] == '.' {
        t
    } else {
        seq!['.'] + t
    }
}

/// Normalizes one extension: trims it and supplies the leading dot when it
/// is missing.
pub fn normalize_extention(s: &str) -> (r: String)
    ensures
        r@ == normalize_ext_spec(s@),
{
    let t = trim_str(s);
    if t.unicode_len() > 0 && t.get_char(0) == '.' {
        t.to_owned()
    } else {
        let mut r = String::from_str(".");
        r.append(t);
        proof {
            reveal_strlit(".");
            assert(r@ =~= seq!['.'] + trim_spec(s@));
        }
        r
    }
}

/// The built-in extension list, used when asked for.
pub open spec fn default_extentions_spec() -> Seq<Seq<char>> {
    seq![".php"@, ".css"@, ".js"@, ".sql"@, ".aspx"@, ".asp"@, ".txt"@]
}

fn default_extention_list() -> (r: Vec<String>)
    ensures
        r.deep_view() == default_extentions_spec(),
{
    let mut r: Vec<String> = Vec::new();
    r.push(String::from_str(".php"));
    r.push(String::from_str(".css"));
    r.push(String::from_str(".js"));
    r.push(String::from_str(".sql"));
    r.push(String::from_str(".aspx"));
    r.push(String::from_str(".asp"));
    r.push(String::from_str(".txt"));
    proof {
        assert(r.deep_view() =~= default_extentions_spec());
    }
    r
}

/// The extension list a scan runs with: the explicit extensions, each
/// normalized, in their given order, followed by the built-in list when
/// asked for.  Nothing is reordered or deduplicated.
pub open spec fn ext_list_spec(input: Option<Seq<Seq<char>>>, use_defaults: bool) -> Seq<Seq<char>> {
    (match input {
        Option::Some(e) => e.map_values(|s: Seq<char>| normalize_ext_spec(s)),
        Option::None => Seq::empty(),
    }) + if use_defaults {
        default_extentions_spec()
    } else {
        Seq::empty()
    }
}

/// Builds the extension list of a scan from the explicit extensions, each
/// trimmed and given its leading dot, and the built-in list when asked for.
pub fn get_extention_list(inpit_ex: &Option<Vec<String>>, default_extentions: bool) -> (r: Vec<
    String,
>)
    ensures
        r.deep_view() == ext_list_spec(inpit_ex.deep_view(), default_extentions),
{
    let mut r: Vec<String> = Vec::new();
    match inpit_ex {
        Option::Some(exts) => {
            let mut i: usize = 0;
            while i < exts.len()
                invariant
                    i <= exts@.len(),
                    r@.len() == i as nat,
                    forall|j: int|
                        0 <= j < i ==> (#[trigger] r@[j])@ == normalize_ext_spec(exts@[j]@),
                decreases exts@.len() - i,
            {
                let e = normalize_extention(exts[i].as_str());
                r.push(e);
                i = i + 1;
            }
            proof {
                let want = exts.deep_view().map_values(|s: Seq<char>| normalize_ext_spec(s));
                assert forall|j: int| 0 <= j < r@.len() implies r.deep_view()[j] == want[j] by {
                    assert(exts.deep_view()[j] == exts@[j]@);
                }
                assert(r.deep_view() =~= want);
            }
        },
        Option::None => {},
    }
    if default_extentions {
        let ghost before = r.deep_view();
        let defaults = default_extention_list();
        let mut i: usize = 0;
        while i < defaults.len()
            invariant
                i <= defaults@.len(),
                r.deep_view() =~= before + defaults.deep_view().take(i as int),
                defaults.deep_view() == default_extentions_spec(),
            decreases defaults@.len() - i,
        {
            let ghost pre = r.deep_view();
            let d = defaults[i].clone();
            r.push(d);
            proof {
                assert(defaults@[i as int]@ == defaults.deep_view()[i as int]);
                assert(r.deep_view() =~= pre.push(defaults.deep_view()[i as int]));
                assert(before + defaults.deep_view().take(i + 1) =~= (before
                    + defaults.deep_view().take(i as int)).push(defaults.deep_view()[i as int]));
            }
            i = i + 1;
        }
        proof {
            assert(defaults.deep_view().take(defaults@.len() as int) =~= defaults.deep_view());
        }
    } else {
        proof {
            assert(r.deep_view() + Seq::<Seq<char>>::empty() =~= r.deep_view());
        }
    }
    r
}

} // verus!
