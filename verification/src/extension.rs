//! Extensions: vendor tool lists (`extension.toml`, a name and its tools)
//! whose tool names go into the decision context. Only the metadata is read;
//! the tools themselves are called through the extension bridge.
use vstd::prelude::*;
use crate::argmap::{lemma_text_lt_asymmetric, lemma_text_lt_transitive, text_less, text_lt};
use crate::order::{lemma_insert_keeps_order, with_key};

verus! {

broadcast use {
    vstd::seq_lib::to_multiset_insert,
    vstd::seq_lib::to_multiset_remove,
    vstd::seq_lib::to_multiset_len,
    vstd::seq_lib::to_multiset_contains,
    vstd::multiset::lemma_multiset_empty_len,
    vstd::multiset::group_multiset_axioms,
};

/// A tool of an extension.
#[derive(Debug, Clone)]
pub struct ExtensionTool {
    pub name: String,
}

/// An extension's metadata.
#[derive(Debug, Clone)]
pub struct ExtensionMeta {
    pub name: String,
    pub tools: Vec<ExtensionTool>,
}

/// The loaded extensions, ordered by name.
#[derive(Debug, Clone)]
pub struct ExtensionSet {
    pub extensions: Vec<ExtensionMeta>,
}

/// Accepts a parsed `extension.toml`: its name must not be empty.
pub fn check_meta(meta: ExtensionMeta) -> (r: Result<ExtensionMeta, String>)
    ensures
        meta.name@.len() > 0 ==> r == Ok::<ExtensionMeta, String>(meta),
        meta.name@.len() == 0 ==> (r matches Err(e) && e@ == "name 缺失"@),
{
    if meta.name.as_str().is_empty() {
        Err(String::from_str("name 缺失"))
    } else {
        Ok(meta)
    }
}

/// Names in non-decreasing order.
pub open spec fn sorted_by_name(exts: Seq<ExtensionMeta>) -> bool {
    forall|i: int, j: int| 0 <= i < j < exts.len() ==> !text_lt(exts[j].name@, exts[i].name@)
}

/// The tool names of an extension.
pub open spec fn tool_list(e: ExtensionMeta) -> Seq<Seq<char>> {
    e.tools@.map_values(|t: ExtensionTool| t.name@)
}

/// All tool names, extension by extension.
pub open spec fn all_tools(exts: Seq<ExtensionMeta>) -> Seq<Seq<char>>
    decreases exts.len(),
{
    if exts.len() == 0 {
        Seq::empty()
    } else {
        all_tools(exts.drop_last()) + tool_list(exts.last())
    }
}

/// An extension's name, the key it is ordered by.
pub open spec fn ext_name() -> spec_fn(ExtensionMeta) -> Seq<char> {
    |e: ExtensionMeta| e.name@
}

/// Inserts `e` after every entry whose name is not greater.
fn insert_by_name(v: &mut Vec<ExtensionMeta>, e: ExtensionMeta)
    requires
        sorted_by_name(old(v)@),
    ensures
        sorted_by_name(final(v)@),
        final(v)@.to_multiset() == old(v)@.to_multiset().insert(e),
        forall|k: Seq<char>| #[trigger] with_key(final(v)@, ext_name(), k) == (if e.name@ == k {
            with_key(old(v)@, ext_name(), k).push(e)
        } else {
            with_key(old(v)@, ext_name(), k)
        }),
{
    let n = v.len();
    let mut p: usize = 0;
    while p < n
        invariant
            n == v@.len(),
            p <= n,
            forall|j: int| 0 <= j < p ==> !text_lt(e.name@, v@[j].name@),
        ensures
            p <= n,
            forall|j: int| 0 <= j < p ==> !text_lt(e.name@, v@[j].name@),
            p < n ==> text_lt(e.name@, v@[p as int].name@),
        decreases n - p,
    {
        if text_less(e.name.as_str(), v[p].name.as_str()) {
            break;
        }
        p = p + 1;
    }
    let ghost old_v = v@;
    let ghost en = e.name@;
    let ghost ge = e;
    proof {
        assert forall|j: int| p <= j < old_v.len() implies text_lt(ext_name()(ge), ext_name()(old_v[j])) by {
            if p < j {
                assert(!text_lt(old_v[j].name@, old_v[p as int].name@));
                crate::argmap::lemma_text_lt_total(old_v[p as int].name@, old_v[j].name@);
                if text_lt(old_v[p as int].name@, old_v[j].name@) {
                    lemma_text_lt_transitive(en, old_v[p as int].name@, old_v[j].name@);
                }
            }
        }
    }
    v.insert(p, e);
    proof {
        assert(v@ =~= old_v.insert(p as int, ge));
        assert forall|k: Seq<char>| #[trigger] with_key(v@, ext_name(), k) == (if en == k {
            with_key(old_v, ext_name(), k).push(ge)
        } else {
            with_key(old_v, ext_name(), k)
        }) by {
            lemma_insert_keeps_order(old_v, p as int, ge, ext_name(), k);
        }
        assert forall|i: int, j: int| 0 <= i < j < v@.len() implies !text_lt(v@[j].name@, v@[i].name@) by {
            if j < p {
            } else if j == p {
                assert(v@[i] == old_v[i]);
            } else if i == p {
                let w = old_v[j - 1].name@;
                if text_lt(w, en) {
                    lemma_text_lt_transitive(w, en, old_v[p as int].name@);
                    if j - 1 == p {
                        lemma_text_lt_asymmetric(w, w);
                    }
                }
            } else if i < p {
                assert(v@[i] == old_v[i]);
                assert(v@[j] == old_v[j - 1]);
            } else {
                assert(v@[i] == old_v[i - 1]);
                assert(v@[j] == old_v[j - 1]);
            }
        }
    }
}

impl ExtensionSet {
    /// The set of the extensions loaded, ordered by name (those with equal
    /// names keep their order of loading).
    pub fn from_loaded(loaded: Vec<ExtensionMeta>) -> (r: ExtensionSet)
        ensures
            sorted_by_name(r.extensions@),
            r.extensions@.to_multiset() == loaded@.to_multiset(),
            forall|k: Seq<char>| #[trigger] with_key(r.extensions@, ext_name(), k) == with_key(
                loaded@,
                ext_name(),
                k,
            ),
    {
        let mut v: Vec<ExtensionMeta> = Vec::new();
        let mut rest = loaded;
        proof {
            assert(v@ =~= Seq::<ExtensionMeta>::empty());
            assert(v@.to_multiset().len() == 0);
            assert(v@.to_multiset().add(rest@.to_multiset()) =~= loaded@.to_multiset());
            assert(loaded@.subrange(0, 0) =~= Seq::<ExtensionMeta>::empty());
            assert(rest@ =~= loaded@.subrange(0, loaded@.len() as int));
        }
        while rest.len() > 0
            invariant
                sorted_by_name(v@),
                v@.to_multiset().add(rest@.to_multiset()) == loaded@.to_multiset(),
                rest@.len() <= loaded@.len(),
                rest@ == loaded@.subrange(loaded@.len() - rest@.len(), loaded@.len() as int),
                forall|k: Seq<char>| #[trigger] with_key(v@, ext_name(), k) == with_key(
                    loaded@.subrange(0, loaded@.len() - rest@.len()),
                    ext_name(),
                    k,
                ),
            decreases rest@.len(),
        {
            let ghost before = rest@;
            let ghost vb = v@;
            let ghost c = loaded@.len() - rest@.len();
            let e = rest.remove(0);
            let ghost ge = e;
            insert_by_name(&mut v, e);
            proof {
                assert(ge == loaded@[c]);
                assert(rest@ =~= loaded@.subrange(loaded@.len() - rest@.len(), loaded@.len() as int));
                let pre = loaded@.subrange(0, c + 1);
                assert(pre.drop_last() =~= loaded@.subrange(0, c));
                assert(pre.last() == ge);
                assert forall|k: Seq<char>| #[trigger] with_key(v@, ext_name(), k) == with_key(pre, ext_name(), k) by {
                    assert(with_key(vb, ext_name(), k) == with_key(loaded@.subrange(0, c), ext_name(), k));
                }
                assert(before.contains(before[0]));
                assert(before.to_multiset().count(before[0]) > 0);
                assert(rest@.to_multiset() =~= before.to_multiset().remove(before[0]));
                assert(v@.to_multiset().add(rest@.to_multiset()) =~= vb.to_multiset().add(before.to_multiset()));
            }
        }
        proof {
            assert(rest@.to_multiset().len() == 0);
            assert(v@.to_multiset().add(rest@.to_multiset()) =~= v@.to_multiset());
            assert(loaded@.subrange(0, loaded@.len() as int) =~= loaded@);
        }
        ExtensionSet { extensions: v }
    }

    /// All tool names, for the decision context.
    pub fn tool_names(&self) -> (r: Vec<String>)
        ensures
            r@.map_values(|s: String| s@) == all_tools(self.extensions@),
    {
        let mut r: Vec<String> = Vec::new();
        let mut i: usize = 0;
        while i < self.extensions.len()
            invariant
                i <= self.extensions@.len(),
                r@.map_values(|s: String| s@) == all_tools(self.extensions@.subrange(0, i as int)),
            decreases self.extensions@.len() - i,
        {
            let e = &self.extensions[i];
            let ghost before = r@.map_values(|s: String| s@);
            let mut k: usize = 0;
            while k < e.tools.len()
                invariant
                    k <= e.tools@.len(),
                    r@.map_values(|s: String| s@) == before + tool_list(*e).subrange(0, k as int),
                decreases e.tools@.len() - k,
            {
                let ghost prev = r@;
                r.push(e.tools[k].name.clone());
                proof {
                    assert(r@ =~= prev.push(e.tools@[k as int].name));
                    assert(tool_list(*e).subrange(0, k + 1) =~= tool_list(*e).subrange(0, k as int).push(
                        e.tools@[k as int].name@,
                    ));
                    assert(r@.map_values(|s: String| s@) =~= prev.map_values(|s: String| s@).push(
                        e.tools@[k as int].name@,
                    ));
                }
                k = k + 1;
            }
            proof {
                let pre = self.extensions@.subrange(0, i + 1);
                assert(pre.drop_last() =~= self.extensions@.subrange(0, i as int));
                assert(tool_list(*e).subrange(0, e.tools@.len() as int) =~= tool_list(*e));
            }
            i = i + 1;
        }
        proof {
            assert(self.extensions@.subrange(0, self.extensions@.len() as int) =~= self.extensions@);
        }
        r
    }
}

} // verus!
