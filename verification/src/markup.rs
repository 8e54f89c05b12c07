use vstd::prelude::*;

use crate::text::str_eq_str;

verus! {

broadcast use vstd::std_specs::vec::axiom_vec_index_decreases, vstd::std_specs::vec::axiom_vec_decreases_to_view, vstd::seq::axiom_seq_index_decreases;

/// One attribute of a markup element.
#[derive(Debug)]
pub struct Attr {
    pub name: String,
    pub value: String,
}

/// A parsed markup element: its tag name, its classes, its attributes, the
/// text it contains, and its child elements in document order. A whole
/// document is the tree under a single root element.
#[derive(Debug)]
pub struct Elem {
    pub tag: String,
    pub classes: Vec<String>,
    pub attrs: Vec<Attr>,
    pub text: String,
    pub children: Vec<Elem>,
}

/// A structural pattern, the shape of the fixed schema queries: a tag name,
/// optionally a required class, optionally a required attribute value.
pub struct PatSpec {
    pub tag: Seq<char>,
    pub class: Option<Seq<char>>,
    pub attr: Option<(Seq<char>, Seq<char>)>,
}

pub open spec fn opt_str_view(o: Option<&str>) -> Option<Seq<char>> {
    match o {
        Some(s) => Some(s@),
        None => None,
    }
}

pub open spec fn opt_attr_view(o: Option<(&str, &str)>) -> Option<(Seq<char>, Seq<char>)> {
    match o {
        Some(p) => Some((p.0@, p.1@)),
        None => None,
    }
}

pub open spec fn pat_of(tag: &str, class: Option<&str>, attr: Option<(&str, &str)>) -> PatSpec {
    PatSpec { tag: tag@, class: opt_str_view(class), attr: opt_attr_view(attr) }
}

pub open spec fn has_class(e: Elem, c: Seq<char>) -> bool {
    exists|i: int| 0 <= i < e.classes@.len() && (#[trigger] e.classes@[i])@ == c
}

/// The value of the first attribute with the given name, if any.
pub open spec fn attr_val(attrs: Seq<Attr>, name: Seq<char>) -> Option<Seq<char>>
    decreases attrs.len(),
{
    if attrs.len() == 0 {
        None
    } else if attrs[0].name@ == name {
        Some(attrs[0].value@)
    } else {
        attr_val(attrs.drop_first(), name)
    }
}

/// Whether one element matches a structural pattern.
pub open spec fn matches_pat(e: Elem, p: PatSpec) -> bool {
    e.tag@ == p.tag && (match p.class {
        Some(c) => has_class(e, c),
        None => true,
    }) && (match p.attr {
        Some(av) => attr_val(e.attrs@, av.0) == Some(av.1),
        None => true,
    })
}

/// Every element of the tree rooted at `e` (root included) that matches the
/// pattern, in document order (depth-first, parents before children).
pub open spec fn sel_elem(e: Elem, p: PatSpec) -> Seq<Elem>
    decreases e,
{
    if matches_pat(e, p) {
        seq![e] + sel_list(e.children@, p)
    } else {
        sel_list(e.children@, p)
    }
}

pub open spec fn sel_list(es: Seq<Elem>, p: PatSpec) -> Seq<Elem>
    decreases es,
{
    if es.len() == 0 {
        Seq::empty()
    } else {
        sel_elem(es[0], p) + sel_list(es.drop_first(), p)
    }
}

/// What a structural query scoped to `scope` selects: the matching
/// descendants of `scope`, the scope itself excluded, in document order.
pub open spec fn sel_in(scope: Elem, p: PatSpec) -> Seq<Elem> {
    sel_list(scope.children@, p)
}

/// The contained text of each element, in order.
pub open spec fn texts_of(es: Seq<Elem>) -> Seq<Seq<char>> {
    es.map_values(|e: Elem| e.text@)
}

pub proof fn lemma_sel_list_append(a: Seq<Elem>, b: Seq<Elem>, p: PatSpec)
    ensures
        sel_list(a + b, p) == sel_list(a, p) + sel_list(b, p),
    decreases a.len(),
{
    if a.len() == 0 {
        assert(a + b =~= b);
        assert(sel_list(a, p) + sel_list(b, p) =~= sel_list(b, p));
    } else {
        assert((a + b).drop_first() =~= a.drop_first() + b);
        lemma_sel_list_append(a.drop_first(), b, p);
        assert((a + b)[0] == a[0]);
        assert(sel_list(a + b, p) =~= sel_list(a, p) + sel_list(b, p));
    }
}

pub proof fn lemma_sel_list_push(a: Seq<Elem>, x: Elem, p: PatSpec)
    ensures
        sel_list(a.push(x), p) == sel_list(a, p) + sel_elem(x, p),
{
    assert(a.push(x) =~= a + seq![x]);
    lemma_sel_list_append(a, seq![x], p);
    assert(seq![x].drop_first() =~= Seq::<Elem>::empty());
    assert(sel_list(seq![x], p) == sel_elem(x, p) + sel_list(Seq::<Elem>::empty(), p));
    assert(sel_elem(x, p) + Seq::<Elem>::empty() =~= sel_elem(x, p));
}

fn has_class_exec(e: &Elem, c: &str) -> (r: bool)
    ensures
        r == has_class(*e, c@),
{
    let n: usize = e.classes.len();
    let mut i: usize = 0;
    while i < n
        invariant
            n == e.classes@.len(),
            0 <= i <= n,
            forall|j: int| 0 <= j < i ==> (#[trigger] e.classes@[j])@ != c@,
        decreases n - i,
    {
        if str_eq_str(e.classes[i].as_str(), c) {
            return true;
        }
        i = i + 1;
    }
    false
}

pub fn attr_value<'a>(e: &'a Elem, name: &str) -> (r: Option<&'a String>)
    ensures
        (match r {
            Some(v) => attr_val(e.attrs@, name@) == Some(v@),
            None => attr_val(e.attrs@, name@) == None::<Seq<char>>,
        }),
{
    let n: usize = e.attrs.len();
    let mut i: usize = 0;
    proof {
        assert(e.attrs@.skip(0) =~= e.attrs@);
    }
    while i < n
        invariant
            n == e.attrs@.len(),
            0 <= i <= n,
            attr_val(e.attrs@, name@) == attr_val(e.attrs@.skip(i as int), name@),
        decreases n - i,
    {
        proof {
            assert(e.attrs@.skip(i as int)[0] == e.attrs@[i as int]);
            assert(e.attrs@.skip(i as int).drop_first() =~= e.attrs@.skip(i + 1));
        }
        if str_eq_str(e.attrs[i].name.as_str(), name) {
            return Some(&e.attrs[i].value);
        }
        i = i + 1;
    }
    proof {
        assert(e.attrs@.skip(n as int).len() == 0);
    }
    None
}

fn matches_pat_exec(e: &Elem, tag: &str, class: Option<&str>, attr: Option<(&str, &str)>) -> (r:
    bool)
    ensures
        r == matches_pat(*e, pat_of(tag, class, attr)),
{
    if !str_eq_str(e.tag.as_str(), tag) {
        return false;
    }
    match class {
        Some(c) => {
            if !has_class_exec(e, c) {
                return false;
            }
        },
        None => {},
    }
    match attr {
        Some(av) => {
            match attr_value(e, av.0) {
                Some(v) => str_eq_str(v.as_str(), av.1),
                None => false,
            }
        },
        None => true,
    }
}

fn find_first_in<'a>(e: &'a Elem, tag: &str, class: Option<&str>, attr: Option<(&str, &str)>) -> (r:
    Option<&'a Elem>)
    ensures
        (match r {
            Some(x) => sel_elem(*e, pat_of(tag, class, attr)).len() > 0 && *x == sel_elem(
                *e,
                pat_of(tag, class, attr),
            )[0],
            None => sel_elem(*e, pat_of(tag, class, attr)).len() == 0,
        }),
    decreases *e,
{
    let ghost p = pat_of(tag, class, attr);
    if matches_pat_exec(e, tag, class, attr) {
        proof {
            assert(sel_elem(*e, p)[0] == *e);
        }
        return Some(e);
    }
    let n: usize = e.children.len();
    let mut i: usize = 0;
    while i < n
        invariant
            n == e.children@.len(),
            0 <= i <= n,
            p == pat_of(tag, class, attr),
            !matches_pat(*e, p),
            sel_list(e.children@.take(i as int), p) =~= Seq::<Elem>::empty(),
        decreases n - i,
    {
        let child = &e.children[i];
        let found = find_first_in(child, tag, class, attr);
        proof {
            lemma_sel_list_push(e.children@.take(i as int), e.children@[i as int], p);
            assert(e.children@.take(i as int).push(e.children@[i as int]) =~= e.children@.take(
                i + 1,
            ));
        }
        match found {
            Some(x) => {
                proof {
                    assert(e.children@.take(i + 1) + e.children@.skip(i + 1) =~= e.children@);
                    lemma_sel_list_append(e.children@.take(i + 1), e.children@.skip(i + 1), p);
                    assert(sel_elem(*e, p) == sel_list(e.children@, p));
                    assert(sel_list(e.children@, p)[0] == sel_elem(e.children@[i as int], p)[0]);
                }
                return Some(x);
            },
            None => {},
        }
        i = i + 1;
    }
    proof {
        assert(e.children@.take(n as int) =~= e.children@);
        assert(sel_elem(*e, p).len() == 0);
    }
    None
}

/// The first element matching the pattern within the scope's descendants,
/// in document order, if any.
pub fn select_first<'a>(
    scope: &'a Elem,
    tag: &str,
    class: Option<&str>,
    attr: Option<(&str, &str)>,
) -> (r: Option<&'a Elem>)
    ensures
        (match r {
            Some(x) => sel_in(*scope, pat_of(tag, class, attr)).len() > 0 && *x == sel_in(
                *scope,
                pat_of(tag, class, attr),
            )[0],
            None => sel_in(*scope, pat_of(tag, class, attr)).len() == 0,
        }),
{
    let ghost p = pat_of(tag, class, attr);
    let n: usize = scope.children.len();
    let mut i: usize = 0;
    while i < n
        invariant
            n == scope.children@.len(),
            0 <= i <= n,
            p == pat_of(tag, class, attr),
            sel_list(scope.children@.take(i as int), p) =~= Seq::<Elem>::empty(),
        decreases n - i,
    {
        let child = &scope.children[i];
        let found = find_first_in(child, tag, class, attr);
        proof {
            lemma_sel_list_push(scope.children@.take(i as int), scope.children@[i as int], p);
            assert(scope.children@.take(i as int).push(scope.children@[i as int])
                =~= scope.children@.take(i + 1));
        }
        match found {
            Some(x) => {
                proof {
                    assert(scope.children@.take(i + 1) + scope.children@.skip(i + 1)
                        =~= scope.children@);
                    lemma_sel_list_append(
                        scope.children@.take(i + 1),
                        scope.children@.skip(i + 1),
                        p,
                    );
                    assert(sel_list(scope.children@, p)[0] == sel_elem(
                        scope.children@[i as int],
                        p,
                    )[0]);
                }
                return Some(x);
            },
            None => {},
        }
        i = i + 1;
    }
    proof {
        assert(scope.children@.take(n as int) =~= scope.children@);
    }
    None
}

fn collect_texts_in(
    e: &Elem,
    tag: &str,
    class: Option<&str>,
    attr: Option<(&str, &str)>,
    out: &mut Vec<String>,
)
    ensures
        final(out).deep_view() == old(out).deep_view() + texts_of(
            sel_elem(*e, pat_of(tag, class, attr)),
        ),
    decreases *e,
{
    let ghost p = pat_of(tag, class, attr);
    if matches_pat_exec(e, tag, class, attr) {
        out.push(e.text.clone());
        proof {
            assert(out.deep_view() =~= old(out).deep_view() + texts_of(seq![*e]));
        }
    }
    let ghost mid = out.deep_view();
    let n: usize = e.children.len();
    let mut i: usize = 0;
    while i < n
        invariant
            n == e.children@.len(),
            0 <= i <= n,
            p == pat_of(tag, class, attr),
            mid == old(out).deep_view() + (if matches_pat(*e, p) {
                texts_of(seq![*e])
            } else {
                Seq::<Seq<char>>::empty()
            }),
            out.deep_view() == mid + texts_of(sel_list(e.children@.take(i as int), p)),
        decreases n - i,
    {
        let child = &e.children[i];
        collect_texts_in(child, tag, class, attr, out);
        proof {
            lemma_sel_list_push(e.children@.take(i as int), e.children@[i as int], p);
            assert(e.children@.take(i as int).push(e.children@[i as int]) =~= e.children@.take(
                i + 1,
            ));
            assert(texts_of(
                sel_list(e.children@.take(i as int), p) + sel_elem(e.children@[i as int], p),
            ) =~= texts_of(sel_list(e.children@.take(i as int), p)) + texts_of(
                sel_elem(e.children@[i as int], p),
            ));
            assert(out.deep_view() =~= mid + texts_of(sel_list(e.children@.take(i + 1), p)));
        }
        i = i + 1;
    }
    proof {
        assert(e.children@.take(n as int) =~= e.children@);
        if matches_pat(*e, p) {
            assert(texts_of(sel_elem(*e, p)) =~= texts_of(seq![*e]) + texts_of(
                sel_list(e.children@, p),
            ));
        }
        assert(out.deep_view() =~= old(out).deep_view() + texts_of(sel_elem(*e, p)));
    }
}

/// The contained text of every matching descendant of the scope, in
/// document order.
pub fn select_texts(scope: &Elem, tag: &str, class: Option<&str>, attr: Option<(&str, &str)>) -> (r:
    Vec<String>)
    ensures
        r.deep_view() == texts_of(sel_in(*scope, pat_of(tag, class, attr))),
{
    let ghost p = pat_of(tag, class, attr);
    let mut out: Vec<String> = Vec::new();
    let n: usize = scope.children.len();
    let mut i: usize = 0;
    while i < n
        invariant
            n == scope.children@.len(),
            0 <= i <= n,
            p == pat_of(tag, class, attr),
            out.deep_view() == texts_of(sel_list(scope.children@.take(i as int), p)),
        decreases n - i,
    {
        let child = &scope.children[i];
        collect_texts_in(child, tag, class, attr, &mut out);
        proof {
            lemma_sel_list_push(scope.children@.take(i as int), scope.children@[i as int], p);
            assert(scope.children@.take(i as int).push(scope.children@[i as int])
                =~= scope.children@.take(i + 1));
            assert(texts_of(
                sel_list(scope.children@.take(i as int), p) + sel_elem(
                    scope.children@[i as int],
                    p,
                ),
            ) =~= texts_of(sel_list(scope.children@.take(i as int), p)) + texts_of(
                sel_elem(scope.children@[i as int], p),
            ));
        }
        i = i + 1;
    }
    proof {
        assert(scope.children@.take(n as int) =~= scope.children@);
    }
    out
}

} // verus!
