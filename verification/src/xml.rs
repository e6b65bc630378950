//! The nodes of an XML document, as `roxmltree` reads them, and the
//! attribute tables that the project elements are read from.
use vstd::prelude::*;
use crate::text::{opt_view, str_eq, strs_view};

verus! {

/// One node of a document: its id, its parent's id, whether it is an
/// element, its tag name and its attributes (name, value) in order.
pub struct XmlNode {
    pub id: usize,
    pub parent: Option<usize>,
    pub element: bool,
    pub name: String,
    pub attributes: Vec<(String, String)>,
}

pub struct XmlNodeView {
    pub id: usize,
    pub parent: Option<usize>,
    pub element: bool,
    pub name: Seq<char>,
    pub attributes: Seq<(Seq<char>, Seq<char>)>,
}

pub open spec fn attrs_view(a: Seq<(String, String)>) -> Seq<(Seq<char>, Seq<char>)> {
    a.map_values(|p: (String, String)| (p.0@, p.1@))
}

impl View for XmlNode {
    type V = XmlNodeView;

    open spec fn view(&self) -> XmlNodeView {
        XmlNodeView {
            id: self.id,
            parent: self.parent,
            element: self.element,
            name: self.name@,
            attributes: attrs_view(self.attributes@),
        }
    }
}

pub open spec fn nodes_view(ns: Seq<XmlNode>) -> Seq<XmlNodeView> {
    ns.map_values(|n: XmlNode| n@)
}

/// The nodes of the document that `text` holds, in document order, as
/// `roxmltree` reads them; `None` where the text is not well-formed XML.
pub uninterp spec fn xml_nodes(text: Seq<char>) -> Option<Seq<XmlNodeView>>;

/// `roxmltree::Document::parse`, then each node of `Document::descendants`
/// taken apart by `Node::id`, `Node::parent`, `Node::is_element`,
/// `Node::tag_name` and `Node::attributes`. The nodes are named by
/// [`xml_nodes`]; the text of the refusal is not stated.
#[verifier::external_body]
pub(crate) fn read_nodes(text: &str) -> (r: Result<Vec<XmlNode>, String>)
    ensures
        match r {
            Ok(ns) => xml_nodes(text@) == Some(nodes_view(ns@)),
            Err(_) => xml_nodes(text@) is None,
        },
{
    match roxmltree::Document::parse(text) {
        Ok(doc) => Ok(doc.descendants().map(|n| XmlNode {
            id: n.id().get_usize(),
            parent: n.parent().map(|p| p.id().get_usize()),
            element: n.is_element(),
            name: n.tag_name().name().to_string(),
            attributes: n.attributes().map(|a| (a.name().to_string(), a.value().to_string())).collect(),
        }).collect()),
        Err(e) => Err(e.to_string()),
    }
}

/// The positions at or after `j` of the elements whose parent is node `i`,
/// in order.
pub open spec fn kids(ns: Seq<XmlNodeView>, i: int, j: int) -> Seq<int>
    decreases ns.len() - j,
{
    if j < 0 || j >= ns.len() {
        Seq::empty()
    } else if ns[j].element && ns[j].parent == Some(ns[i].id) {
        seq![j] + kids(ns, i, j + 1)
    } else {
        kids(ns, i, j + 1)
    }
}

/// The element children of node `i`, in document order (a child comes after
/// its parent).
pub open spec fn children(ns: Seq<XmlNodeView>, i: int) -> Seq<int> {
    kids(ns, i, i + 1)
}

pub proof fn lemma_kids_after(ns: Seq<XmlNodeView>, i: int, j: int)
    ensures
        forall|k: int| 0 <= k < kids(ns, i, j).len() ==> j <= #[trigger] kids(ns, i, j)[k] < ns.len(),
    decreases ns.len() - j,
{
    if 0 <= j < ns.len() {
        lemma_kids_after(ns, i, j + 1);
        let rest = kids(ns, i, j + 1);
        if ns[j].element && ns[j].parent == Some(ns[i].id) {
            assert forall|k: int| 0 <= k < kids(ns, i, j).len() implies j <= #[trigger] kids(ns, i, j)[k] < ns.len() by {
                if k > 0 {
                    assert(kids(ns, i, j)[k] == rest[k - 1]);
                }
            }
        }
    }
}

/// The element children of node `i`.
pub fn child_elements(ns: &Vec<XmlNode>, i: usize) -> (r: Vec<usize>)
    requires
        i < ns.len(),
    ensures
        r@.map_values(|k: usize| k as int) == children(nodes_view(ns@), i as int),
        forall|k: int| 0 <= k < r@.len() ==> i < #[trigger] r@[k] < ns.len(),
{
    let ghost nv = nodes_view(ns@);
    let mut r: Vec<usize> = Vec::new();
    let mut j = i + 1;
    while j < ns.len()
        invariant
            i < j <= ns.len(),
            nv == nodes_view(ns@),
            r@.map_values(|k: usize| k as int) + kids(nv, i as int, j as int) == children(nv, i as int),
            forall|k: int| 0 <= k < r@.len() ==> i < #[trigger] r@[k] < j,
        decreases ns.len() - j,
    {
        let ghost before = r@;
        if ns[j].element && ns[j].parent == Some(ns[i].id) {
            r.push(j);
            assert(r@.map_values(|k: usize| k as int) =~= before.map_values(|k: usize| k as int).push(j as int));
            assert(r@.map_values(|k: usize| k as int) + kids(nv, i as int, j + 1) =~= before.map_values(
                |k: usize| k as int,
            ) + kids(nv, i as int, j as int));
        }
        j += 1;
    }
    assert(r@.map_values(|k: usize| k as int) + Seq::<int>::empty() =~= r@.map_values(|k: usize| k as int));
    r
}

/// The value of the first attribute called `name`.
pub open spec fn attr_named(attrs: Seq<(Seq<char>, Seq<char>)>, name: Seq<char>) -> Option<Seq<char>>
    decreases attrs.len(),
{
    if attrs.len() == 0 {
        None
    } else if attrs[0].0 == name {
        Some(attrs[0].1)
    } else {
        attr_named(attrs.skip(1), name)
    }
}

/// The value of the attribute `name` of a node.
pub fn attribute(n: &XmlNode, name: &str) -> (r: Option<String>)
    ensures
        opt_view(r) == attr_named(n@.attributes, name@),
{
    let ghost a = n@.attributes;
    assert(a.skip(0) =~= a);
    let mut k: usize = 0;
    while k < n.attributes.len()
        invariant
            k <= n.attributes.len(),
            a == n@.attributes,
            attr_named(a, name@) == attr_named(a.skip(k as int), name@),
        decreases n.attributes.len() - k,
    {
        assert(a.skip(k as int)[0] == a[k as int]);
        assert(a.skip(k as int).skip(1) =~= a.skip(k + 1));
        if str_eq(n.attributes[k].0.as_str(), name) {
            return Some(n.attributes[k].1.clone());
        }
        k += 1;
    }
    None
}

/// The first position of `x` in `s` at or after `k`.
pub open spec fn position(s: Seq<Seq<char>>, x: Seq<char>, k: int) -> Option<int>
    decreases s.len() - k,
{
    if k < 0 || k >= s.len() {
        None
    } else if s[k] == x {
        Some(k)
    } else {
        position(s, x, k + 1)
    }
}

/// Reads the attributes of an element against a table: the value of each of
/// `names` (the last attribute of that name wins, an absent one is `None`);
/// attributes in `ignores` and attributes without a name are passed over.
/// Any other attribute refuses the element: the first one, with its value.
pub open spec fn attr_values(
    attrs: Seq<(Seq<char>, Seq<char>)>,
    names: Seq<Seq<char>>,
    ignores: Seq<Seq<char>>,
) -> Result<Seq<Option<Seq<char>>>, (Seq<char>, Seq<char>)>
    decreases attrs.len(),
{
    if attrs.len() == 0 {
        Ok(Seq::new(names.len(), |k: int| None))
    } else {
        let (n, v) = attrs.last();
        match attr_values(attrs.drop_last(), names, ignores) {
            Err(e) => Err(e),
            Ok(vals) => if ignores.contains(n) || n.len() == 0 {
                Ok(vals)
            } else {
                match position(names, n, 0) {
                    Some(k) => Ok(vals.update(k, Some(v))),
                    None => Err((n, v)),
                }
            },
        }
    }
}

pub open spec fn opt_views(v: Seq<Option<String>>) -> Seq<Option<Seq<char>>> {
    v.map_values(|o: Option<String>| opt_view(o))
}

pub proof fn lemma_attr_values_len(
    attrs: Seq<(Seq<char>, Seq<char>)>,
    names: Seq<Seq<char>>,
    ignores: Seq<Seq<char>>,
)
    ensures
        attr_values(attrs, names, ignores) matches Ok(vals) ==> vals.len() == names.len(),
    decreases attrs.len(),
{
    if attrs.len() > 0 {
        lemma_attr_values_len(attrs.drop_last(), names, ignores);
        lemma_position_bound(names, attrs.last().0, 0);
    }
}

/// Once a prefix of the attributes is refused, so are all of them, for the
/// same attribute.
pub proof fn lemma_attr_values_refused(
    attrs: Seq<(Seq<char>, Seq<char>)>,
    names: Seq<Seq<char>>,
    ignores: Seq<Seq<char>>,
    m: int,
)
    requires
        0 <= m <= attrs.len(),
        attr_values(attrs.take(m), names, ignores) is Err,
    ensures
        attr_values(attrs, names, ignores) == attr_values(attrs.take(m), names, ignores),
    decreases attrs.len(),
{
    if attrs.len() > m {
        assert(attrs.drop_last().take(m) =~= attrs.take(m));
        lemma_attr_values_refused(attrs.drop_last(), names, ignores, m);
    } else {
        assert(attrs.take(m) =~= attrs);
    }
}

fn position_exec(names: &Vec<&str>, x: &str) -> (r: Option<usize>)
    ensures
        match r {
            Some(k) => position(strs_view(names@), x@, 0) == Some(k as int),
            None => position(strs_view(names@), x@, 0) is None,
        },
{
    let ghost s = strs_view(names@);
    let mut k: usize = 0;
    while k < names.len()
        invariant
            k <= names.len(),
            s == strs_view(names@),
            position(s, x@, 0) == position(s, x@, k as int),
        decreases names.len() - k,
    {
        if str_eq(names[k], x) {
            return Some(k);
        }
        k += 1;
    }
    None
}

fn contains_str(names: &Vec<&str>, x: &str) -> (r: bool)
    ensures
        r == strs_view(names@).contains(x@),
{
    let ghost s = strs_view(names@);
    let mut k: usize = 0;
    while k < names.len()
        invariant
            k <= names.len(),
            s == strs_view(names@),
            forall|j: int| 0 <= j < k ==> s[j] != x@,
        decreases names.len() - k,
    {
        if str_eq(names[k], x) {
            assert(s[k as int] == x@);
            return true;
        }
        k += 1;
    }
    false
}

/// The values of the attributes `names` (see [`attr_values`]), or the first
/// attribute that is neither named nor ignored.
pub fn read_attrs(attrs: &Vec<(String, String)>, names: &Vec<&str>, ignores: &Vec<&str>) -> (r: Result<
    Vec<Option<String>>,
    (String, String),
>)
    ensures
        match r {
            Ok(vals) => attr_values(attrs_view(attrs@), strs_view(names@), strs_view(ignores@)) matches Ok(x)
                && x == opt_views(vals@),
            Err((n, v)) => attr_values(attrs_view(attrs@), strs_view(names@), strs_view(ignores@)) matches Err(e)
                && e == (n@, v@),
        },
{
    let ghost a = attrs_view(attrs@);
    let ghost nm = strs_view(names@);
    let ghost ig = strs_view(ignores@);
    let mut vals: Vec<Option<String>> = Vec::new();
    let mut k: usize = 0;
    while k < names.len()
        invariant
            k <= names.len(),
            vals@.len() == k,
            forall|j: int| 0 <= j < k ==> vals@[j] is None,
        decreases names.len() - k,
    {
        vals.push(None);
        k += 1;
    }
    assert(opt_views(vals@) =~= Seq::new(names@.len(), |k: int| None::<Seq<char>>));
    assert(a.take(0) =~= Seq::<(Seq<char>, Seq<char>)>::empty());
    let mut i: usize = 0;
    while i < attrs.len()
        invariant
            i <= attrs.len(),
            a == attrs_view(attrs@),
            nm == strs_view(names@),
            ig == strs_view(ignores@),
            vals@.len() == names@.len(),
            attr_values(a.take(i as int), nm, ig) matches Ok(x) && x == opt_views(vals@),
        decreases attrs.len() - i,
    {
        assert(a.take(i + 1).drop_last() =~= a.take(i as int));
        assert(a.take(i + 1).last() == a[i as int]);
        let n = attrs[i].0.as_str();
        if contains_str(ignores, n) || n.unicode_len() == 0 {
        } else {
            match position_exec(names, n) {
                Some(k) => {
                    proof {
                        crate::xml::lemma_position_bound(nm, n@, 0);
                    }
                    let ghost before = vals@;
                    vals.set(k, Some(attrs[i].1.clone()));
                    assert(opt_views(vals@) =~= opt_views(before).update(k as int, Some(attrs@[i as int].1@)));
                },
                None => {
                    proof {
                        lemma_attr_values_refused(a, nm, ig, i + 1);
                    }
                    return Err((attrs[i].0.clone(), attrs[i].1.clone()));
                },
            }
        }
        i += 1;
    }
    assert(a.take(attrs.len() as int) =~= a);
    Ok(vals)
}

pub proof fn lemma_position_bound(s: Seq<Seq<char>>, x: Seq<char>, k: int)
    ensures
        position(s, x, k) matches Some(j) ==> k <= j < s.len() && s[j] == x,
    decreases s.len() - k,
{
    if 0 <= k < s.len() && s[k] != x {
        lemma_position_bound(s, x, k + 1);
    }
}

} // verus!
