//! The list of source packages that this tool keeps up to date.

use crate::text::{
    ascending, from_chars, lemma_ascending_unique, lemma_lex_total, lemma_lex_transitive, less,
    lex_less, push_text, same, strs, to_chars, trim, trimmed,
};
use vstd::prelude::*;

verus! {

/// Whether `name` is what one of `pkgs` is without the whitespace around
/// it, and is not empty.
pub open spec fn is_listed(pkgs: Seq<Seq<char>>, name: Seq<char>) -> bool {
    name.len() > 0 && exists|k: int| 0 <= k < pkgs.len() && trim(#[trigger] pkgs[k]) == name
}

/// Whether `names` is the managed list that `pkgs` give: each package
/// without the whitespace around it, empty names left out, each name once, in
/// ascending order.
pub open spec fn is_managed_list(names: Seq<Seq<char>>, pkgs: Seq<Seq<char>>) -> bool {
    &&& ascending(names)
    &&& forall|name: Seq<char>| names.contains(name) <==> is_listed(pkgs, name)
}

/// Puts `name` into an ascending list, unless the list holds it.
fn insert_name(out: &mut Vec<String>, name: &Vec<char>)
    requires
        ascending(strs(old(out)@)),
    ensures
        ascending(strs(final(out)@)),
        forall|x: Seq<char>|
            strs(final(out)@).contains(x) <==> strs(old(out)@).contains(x) || x == name@,
{
    let ghost before = strs(out@);
    let mut p: usize = 0;
    while p < out.len() && less(&to_chars(out[p].as_str()), name)
        invariant
            p <= out.len(),
            before == strs(out@),
            forall|j: int| 0 <= j < p ==> lex_less(#[trigger] before[j], name@),
        decreases out.len() - p,
    {
        p += 1;
    }
    if p < out.len() && same(&to_chars(out[p].as_str()), name) {
        assert(before[p as int] == name@);
        return ;
    }
    out.insert(p, from_chars(name));
    proof {
        let after = strs(out@);
        assert(after =~= before.insert(p as int, name@));
        if p < before.len() {
            lemma_lex_total(before[p as int], name@);
        }
        assert forall|j: int| p <= j < before.len() implies lex_less(
            name@,
            #[trigger] before[j],
        ) by {
            if p < j {
                lemma_lex_transitive(name@, before[p as int], before[j]);
            }
        }
        assert forall|i: int, j: int| 0 <= i < j < after.len() implies lex_less(
            #[trigger] after[i],
            #[trigger] after[j],
        ) by {
            if j < p {
                assert(after[i] == before[i] && after[j] == before[j]);
            } else if j == p {
                assert(after[i] == before[i]);
            } else if i < p {
                assert(after[i] == before[i] && after[j] == before[j - 1]);
            } else if i == p {
                assert(after[j] == before[j - 1]);
            } else {
                assert(after[i] == before[i - 1] && after[j] == before[j - 1]);
            }
        }
        assert forall|x: Seq<char>| after.contains(x) <==> before.contains(x) || x == name@ by {
            if after.contains(x) {
                let i = choose|i: int| 0 <= i < after.len() && after[i] == x;
                if i < p {
                    assert(before[i] == x);
                } else if i > p {
                    assert(before[i - 1] == x);
                }
            }
            if before.contains(x) {
                let i = choose|i: int| 0 <= i < before.len() && before[i] == x;
                if i < p {
                    assert(after[i] == x);
                } else {
                    assert(after[i + 1] == x);
                }
            }
            if x == name@ {
                assert(after[p as int] == x);
            }
        }
    }
}

/// The managed list that `pkgs` give: trimmed, without empty names, each
/// name once, in ascending order.
pub fn dedupe_sorted(pkgs: &Vec<String>) -> (out: Vec<String>)
    ensures
        is_managed_list(strs(out@), strs(pkgs@)),
{
    let ghost all = strs(pkgs@);
    let mut out: Vec<String> = Vec::new();
    let mut i: usize = 0;
    assert(strs(out@) =~= Seq::<Seq<char>>::empty());
    while i < pkgs.len()
        invariant
            i <= pkgs.len(),
            all == strs(pkgs@),
            is_managed_list(strs(out@), all.take(i as int)),
        decreases pkgs.len() - i,
    {
        let name = trimmed(&to_chars(pkgs[i].as_str()));
        let ghost before = strs(out@);
        if name.len() > 0 {
            insert_name(&mut out, &name);
        }
        proof {
            let after = strs(out@);
            let seen = all.take(i as int);
            let next = all.take(i + 1);
            assert(next[i as int] == pkgs@[i as int]@);
            assert forall|x: Seq<char>| after.contains(x) <==> is_listed(next, x) by {
                if is_listed(seen, x) {
                    let k = choose|k: int| 0 <= k < seen.len() && trim(#[trigger] seen[k]) == x;
                    assert(next[k] == seen[k]);
                }
                if is_listed(next, x) {
                    let k = choose|k: int| 0 <= k < next.len() && trim(#[trigger] next[k]) == x;
                    if k < i {
                        assert(seen[k] == next[k]);
                    }
                }
                if x == name@ && name@.len() > 0 {
                    assert(trim(next[i as int]) == x);
                }
            }
        }
        i += 1;
    }
    assert(all.take(pkgs.len() as int) =~= all);
    out
}

/// The managed list after `pkgs` were added to `existing`.
pub fn add_managed(existing: &Vec<String>, pkgs: &Vec<String>) -> (out: Vec<String>)
    ensures
        is_managed_list(strs(out@), strs(existing@) + strs(pkgs@)),
{
    let mut all: Vec<String> = Vec::new();
    let mut i: usize = 0;
    while i < existing.len()
        invariant
            i <= existing.len(),
            strs(all@) == strs(existing@).take(i as int),
        decreases existing.len() - i,
    {
        let ghost before = all@;
        all.push(existing[i].clone());
        assert(strs(all@) =~= strs(before).push(existing@[i as int]@));
        assert(strs(existing@).take(i + 1) =~= strs(existing@).take(i as int).push(
            existing@[i as int]@,
        ));
        i += 1;
    }
    assert(strs(existing@).take(existing.len() as int) =~= strs(existing@));
    let mut j: usize = 0;
    assert(strs(existing@) + strs(pkgs@).take(0) =~= strs(existing@));
    while j < pkgs.len()
        invariant
            j <= pkgs.len(),
            strs(all@) == strs(existing@) + strs(pkgs@).take(j as int),
        decreases pkgs.len() - j,
    {
        let ghost before = all@;
        all.push(pkgs[j].clone());
        assert(strs(all@) =~= strs(before).push(pkgs@[j as int]@));
        assert(strs(existing@) + strs(pkgs@).take(j + 1) =~= (strs(existing@) + strs(pkgs@).take(
            j as int,
        )).push(pkgs@[j as int]@));
        j += 1;
    }
    assert(strs(pkgs@).take(pkgs.len() as int) =~= strs(pkgs@));
    dedupe_sorted(&all)
}

/// The managed list that the file of the list gives: that of the strings
/// listed in it, or the empty list where there is no file or it lists none.
pub fn load_managed(listed: Option<&Vec<String>>) -> (out: Vec<String>)
    ensures
        is_managed_list(
            strs(out@),
            match listed {
                Some(pkgs) => strs(pkgs@),
                None => Seq::empty(),
            },
        ),
{
    match listed {
        Some(pkgs) => dedupe_sorted(pkgs),
        None => {
            let none: Vec<String> = Vec::new();
            assert(strs(none@) =~= Seq::<Seq<char>>::empty());
            dedupe_sorted(&none)
        },
    }
}

/// `c` as it stands between double quotes: a backslash in front of a
/// backslash and of a double quote.
pub open spec fn escaped_char(c: char) -> Seq<char> {
    if c == '\\' || c == '"' {
        seq!['\\', c]
    } else {
        seq![c]
    }
}

/// `s` as it stands between double quotes.
pub open spec fn escaped(s: Seq<char>) -> Seq<char>
    decreases s.len(),
{
    if s.len() == 0 {
        Seq::empty()
    } else {
        escaped(s.drop_last()) + escaped_char(s.last())
    }
}

/// `s` as it stands between double quotes.
pub fn escape_string(s: &str) -> (r: String)
    ensures
        r@ == escaped(s@),
{
    let chars = to_chars(s);
    let mut out: Vec<char> = Vec::new();
    let mut i: usize = 0;
    assert(chars@.take(0) =~= Seq::<char>::empty());
    while i < chars.len()
        invariant
            i <= chars.len(),
            out@ == escaped(chars@.take(i as int)),
        decreases chars.len() - i,
    {
        let c = chars[i];
        proof {
            assert(chars@.take(i + 1).drop_last() =~= chars@.take(i as int));
            assert(chars@.take(i + 1).last() == c);
        }
        let ghost before = out@;
        if c == '\\' || c == '"' {
            out.push('\\');
            out.push(c);
            assert(out@ =~= before + seq!['\\', c]);
        } else {
            out.push(c);
            assert(out@ =~= before + seq![c]);
        }
        i += 1;
    }
    assert(chars@.take(chars.len() as int) =~= chars@);
    from_chars(&out)
}

/// The lines that list `pkgs` in the file of the managed list.
pub open spec fn manifest_entries(pkgs: Seq<Seq<char>>) -> Seq<char>
    decreases pkgs.len(),
{
    if pkgs.len() == 0 {
        Seq::empty()
    } else {
        manifest_entries(pkgs.drop_last()) + "  \""@ + escaped(pkgs.last()) + "\"\n"@
    }
}

/// The text of the file of the managed list.
pub open spec fn manifest(pkgs: Seq<Seq<char>>) -> Seq<char> {
    "@author \"vx\"\n@description \"Source packages managed by vx\"\n\npackages [\n"@
        + manifest_entries(pkgs) + "]\n"@
}

/// The text of the file that holds the managed list `pkgs`.
pub fn write_manifest(pkgs: &Vec<String>) -> (text: String)
    ensures
        text@ == manifest(strs(pkgs@)),
{
    let ghost all = strs(pkgs@);
    let mut body = String::new();
    let mut i: usize = 0;
    assert(all.take(0) =~= Seq::<Seq<char>>::empty());
    while i < pkgs.len()
        invariant
            i <= pkgs.len(),
            all == strs(pkgs@),
            body@ == manifest_entries(all.take(i as int)),
        decreases pkgs.len() - i,
    {
        proof {
            assert(all.take(i + 1).drop_last() =~= all.take(i as int));
            assert(all.take(i + 1).last() == pkgs@[i as int]@);
        }
        let name = escape_string(pkgs[i].as_str());
        body.append("  \"");
        body.append(name.as_str());
        body.append("\"\n");
        i += 1;
    }
    assert(all.take(pkgs.len() as int) =~= all);
    let mut text =
        "@author \"vx\"\n@description \"Source packages managed by vx\"\n\npackages [\n".to_owned();
    text.append(body.as_str());
    text.append("]\n");
    text
}

/// Those of `list`, in order, that are not among `gone`.
pub open spec fn without(list: Seq<Seq<char>>, gone: Seq<Seq<char>>) -> Seq<Seq<char>>
    decreases list.len(),
{
    if list.len() == 0 {
        Seq::empty()
    } else {
        let before = without(list.drop_last(), gone);
        if gone.contains(list.last()) {
            before
        } else {
            before.push(list.last())
        }
    }
}

/// The managed list after `pkgs` were taken from `existing`.
pub fn remove_managed(existing: &Vec<String>, pkgs: &Vec<String>) -> (out: Vec<String>)
    ensures
        strs(out@) == without(strs(existing@), strs(pkgs@)),
{
    let ghost all = strs(existing@);
    let mut out: Vec<String> = Vec::new();
    let mut i: usize = 0;
    assert(all.take(0) =~= Seq::<Seq<char>>::empty());
    assert(strs(out@) =~= Seq::<Seq<char>>::empty());
    while i < existing.len()
        invariant
            i <= existing.len(),
            all == strs(existing@),
            strs(out@) == without(all.take(i as int), strs(pkgs@)),
        decreases existing.len() - i,
    {
        proof {
            assert(all.take(i + 1).last() == existing@[i as int]@);
            assert(all.take(i + 1).drop_last() =~= all.take(i as int));
        }
        let name = to_chars(existing[i].as_str());
        let mut found = false;
        let mut k: usize = 0;
        while k < pkgs.len() && !found
            invariant
                k <= pkgs.len(),
                name@ == existing@[i as int]@,
                found ==> strs(pkgs@).contains(name@),
                !found ==> forall|j: int| 0 <= j < k ==> #[trigger] strs(pkgs@)[j] != name@,
            decreases pkgs.len() - k,
        {
            if same(&to_chars(pkgs[k].as_str()), &name) {
                assert(strs(pkgs@)[k as int] == name@);
                found = true;
            }
            k += 1;
        }
        if !found {
            push_text(&mut out, existing[i].clone());
        }
        i += 1;
    }
    assert(all.take(existing.len() as int) =~= all);
    out
}

/// There is one managed list for a list of packages, and no other.
pub proof fn lemma_managed_list_unique(a: Seq<Seq<char>>, b: Seq<Seq<char>>, pkgs: Seq<Seq<char>>)
    requires
        is_managed_list(a, pkgs),
        is_managed_list(b, pkgs),
    ensures
        a == b,
{
    lemma_ascending_unique(a, b);
}

} // verus!
