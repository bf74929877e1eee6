use vstd::prelude::*;
use vstd::string::StrSliceExecFns;

verus! {

broadcast use vstd::seq_lib::group_seq_properties;

/// `s` begins with `p`.
pub open spec fn has_prefix(s: Seq<char>, p: Seq<char>) -> bool {
    p.len() <= s.len() && s.subrange(0, p.len() as int) == p
}

/// Interfaces that are not worth watching: the loopback interface and the
/// virtual network and virtual bridge devices of a hypervisor.
pub open spec fn skipped(name: Seq<char>) -> bool {
    name == "lo"@ || has_prefix(name, "vnet"@) || has_prefix(name, "virbr"@)
}

fn starts_with_text(s: &str, p: &str) -> (r: bool)
    ensures
        r == has_prefix(s@, p@),
{
    let s_len = s.unicode_len();
    let p_len = p.unicode_len();
    if p_len > s_len {
        return false;
    }
    let mut i: usize = 0;
    while i < p_len
        invariant
            i <= p_len <= s_len,
            s_len == s@.len(),
            p_len == p@.len(),
            forall|j: int| 0 <= j < i ==> s@[j] == p@[j],
        decreases p_len - i,
    {
        if s.get_char(i) != p.get_char(i) {
            assert(s@.subrange(0, p_len as int)[i as int] != p@[i as int]);
            return false;
        }
        i = i + 1;
    }
    assert(s@.subrange(0, p_len as int) =~= p@);
    true
}

/// Whether the interface `iface_name` is left out when all interfaces are
/// sampled.
pub fn should_skip(iface_name: &str) -> (r: bool)
    ensures
        r == skipped(iface_name@),
{
    proof {
        reveal_strlit("lo");
        reveal_strlit("vnet");
        reveal_strlit("virbr");
    }
    let len = iface_name.unicode_len();
    let is_loopback = if len == 2 {
        starts_with_text(iface_name, "lo")
    } else {
        false
    };
    assert("lo"@.len() == 2);
    if len == 2 {
        assert(iface_name@ =~= iface_name@.subrange(0, 2));
    }
    assert(is_loopback == (iface_name@ == "lo"@));
    is_loopback || starts_with_text(iface_name, "vnet") || starts_with_text(iface_name, "virbr")
}

/// The names as sequences of characters.
pub open spec fn names_view(v: Seq<String>) -> Seq<Seq<char>> {
    v.map_values(|s: String| s@)
}

/// The interfaces of `names` that are sampled, in the order of `names`.
pub open spec fn kept_interfaces(names: Seq<Seq<char>>) -> Seq<Seq<char>> {
    names.filter(|s: Seq<char>| !skipped(s))
}

/// The names of `names` that `should_skip` does not leave out, in order.
pub fn filter_interfaces(names: &Vec<String>) -> (r: Vec<String>)
    ensures
        names_view(r@) == kept_interfaces(names_view(names@)),
{
    let mut r: Vec<String> = Vec::new();
    let mut i: usize = 0;
    while i < names.len()
        invariant
            i <= names@.len(),
            names_view(r@) == kept_interfaces(names_view(names@.subrange(0, i as int))),
        decreases names@.len() - i,
    {
        let ghost prefix = names_view(names@.subrange(0, i as int));
        assert(names_view(names@.subrange(0, i + 1)) =~= prefix.push(names@[i as int]@));
        proof {
            prefix.lemma_filter_push(names@[i as int]@, |s: Seq<char>| !skipped(s));
        }
        if !should_skip(names[i].as_str()) {
            let ghost old_r = r@;
            r.push(names[i].clone());
            assert(names_view(r@) =~= names_view(old_r).push(names@[i as int]@));
        }
        i = i + 1;
    }
    assert(names@.subrange(0, i as int) =~= names@);
    r
}

} // verus!
