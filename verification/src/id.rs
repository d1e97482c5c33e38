//! Identifiers for functions, made from the type name of an item defined inside
//! the function (as `std::any::type_name` gives it).
use vstd::prelude::*;
use crate::text::{chars_of, string_of_chars};

verus! {

/// `s` without the suffix `suffix`, where it ends with it.
pub open spec fn strip_suffix(s: Seq<char>, suffix: Seq<char>) -> Option<Seq<char>> {
    if suffix.len() <= s.len() && s.skip(s.len() - suffix.len()) == suffix {
        Some(s.take(s.len() - suffix.len()))
    } else {
        None
    }
}

/// `::f`, the end of the type name of the item `f` defined in the function.
pub open spec fn item_suffix() -> Seq<char> {
    seq![':', ':', 'f']
}

/// `::{{closure}}`, which the type name has for each closure around the item.
pub open spec fn closure_suffix() -> Seq<char> {
    seq![':', ':', '{', '{', 'c', 'l', 'o', 's', 'u', 'r', 'e', '}', '}']
}

/// `s` without any `::{{closure}}` at its end.
pub open spec fn strip_closures(s: Seq<char>) -> Seq<char>
    decreases s.len(),
{
    match strip_suffix(s, closure_suffix()) {
        Some(rest) => strip_closures(rest),
        None => s,
    }
}

/// `s` with each `::` replaced by `-`, scanning from the start as `str::replace` does.
pub open spec fn replace_path_separators(s: Seq<char>) -> Seq<char>
    decreases s.len(),
{
    if s.len() >= 2 && s[0] == ':' && s[1] == ':' {
        seq!['-'] + replace_path_separators(s.skip(2))
    } else if s.len() >= 1 {
        seq![s[0]] + replace_path_separators(s.skip(1))
    } else {
        s
    }
}

/// The identifier of the function in which the item with type name `item_path`
/// is defined: the path of the function, without closures, with `-` between its
/// parts; empty where the type name is not that of an item `f`.
pub open spec fn function_id_spec(item_path: Seq<char>) -> Seq<char> {
    let path = match strip_suffix(item_path, item_suffix()) {
        Some(p) => p,
        None => Seq::empty(),
    };
    replace_path_separators(strip_closures(path))
}

/// Whether `s` ends with `suffix`.
fn ends_with(s: &Vec<char>, len: usize, suffix: &Vec<char>) -> (res: bool)
    requires
        len <= s@.len(),
    ensures
        res == (suffix@.len() <= len && s@.take(len as int).skip(len - suffix@.len()) == suffix@),
{
    let n = suffix.len();
    if n > len {
        return false;
    }
    let start = len - n;
    let mut i: usize = 0;
    while i < n
        invariant
            n == suffix@.len(),
            start + n == len,
            len <= s@.len(),
            i <= n,
            forall|k: int| 0 <= k < i ==> s@[start + k] == suffix@[k],
        decreases n - i,
    {
        if s[start + i] != suffix[i] {
            assert(s@.take(len as int).skip(start as int)[i as int] != suffix@[i as int]);
            return false;
        }
        i = i + 1;
    }
    assert(s@.take(len as int).skip(start as int) =~= suffix@);
    true
}

/// The identifier of the function in which an item with type name `item_path` is
/// defined, as `function_id_spec` describes it.
pub fn function_id(item_path: &str) -> (res: String)
    ensures
        res@ == function_id_spec(item_path@),
{
    let chars = chars_of(item_path);
    proof {
        reveal_strlit("::f");
        reveal_strlit("::{{closure}}");
    }
    let item = chars_of("::f");
    let closure = chars_of("::{{closure}}");
    assert(item@ =~= item_suffix());
    assert(closure@ =~= closure_suffix());
    let mut len: usize = if ends_with(&chars, chars.len(), &item) {
        chars.len() - item.len()
    } else {
        0
    };
    proof {
        assert(chars@.take(chars@.len() as int) =~= chars@);
        if strip_suffix(chars@, item_suffix()) is None {
            assert(chars@.take(0) =~= Seq::<char>::empty());
        }
    }
    let ghost path = chars@.take(len as int);
    assert(path == match strip_suffix(item_path@, item_suffix()) {
        Some(p) => p,
        None => Seq::<char>::empty(),
    });
    while ends_with(&chars, len, &closure)
        invariant
            len <= chars@.len(),
            closure@ == closure_suffix(),
            strip_closures(chars@.take(len as int)) == strip_closures(path),
        decreases len,
    {
        proof {
            assert(chars@.take(len as int).take(len - closure@.len()) =~= chars@.take(
                len - closure@.len(),
            ));
        }
        len = len - closure.len();
    }
    let ghost stripped = chars@.take(len as int);
    assert(strip_closures(stripped) == stripped);
    let mut out: Vec<char> = Vec::new();
    let mut i: usize = 0;
    proof {
        assert(stripped.skip(0) =~= stripped);
        assert(out@ + replace_path_separators(stripped) =~= replace_path_separators(stripped));
    }
    while i < len
        invariant
            len <= chars@.len(),
            i <= len,
            stripped == chars@.take(len as int),
            replace_path_separators(stripped) == out@ + replace_path_separators(
                stripped.skip(i as int),
            ),
        decreases len - i,
    {
        let ghost rest = stripped.skip(i as int);
        if i + 1 < len && chars[i] == ':' && chars[i + 1] == ':' {
            out.push('-');
            proof {
                assert(rest.skip(2) =~= stripped.skip(i + 2));
                assert(out@ + replace_path_separators(stripped.skip(i + 2)) =~= out@.drop_last()
                    + (seq!['-'] + replace_path_separators(rest.skip(2))));
            }
            i = i + 2;
        } else {
            out.push(chars[i]);
            proof {
                assert(rest.skip(1) =~= stripped.skip(i + 1));
                assert(rest[0] == chars@[i as int]);
                assert(out@ + replace_path_separators(stripped.skip(i + 1)) =~= out@.drop_last()
                    + (seq![rest[0]] + replace_path_separators(rest.skip(1))));
            }
            i = i + 1;
        }
    }
    proof {
        assert(stripped.skip(i as int) =~= Seq::<char>::empty());
        assert(out@ + Seq::<char>::empty() =~= out@);
    }
    string_of_chars(out.as_slice())
}

} // verus!
