//! A parsed XML document held as plain values: its nodes in document order,
//! each with the indices of its children.
use vstd::prelude::*;
use vstd::string::StringSliceAdditionalSpecFns;
use vstd::utf8::encode_utf8_decode_utf8;

verus! {

/// An attribute of an element: its namespace URI, if any, its local name and
/// its value.
#[derive(Debug, Clone, PartialEq)]
pub struct XmlAttribute {
    pub namespace: Option<String>,
    pub name: String,
    pub value: String,
}

/// One node of a document. For an element, `name` is its local tag name and
/// `text` the text of its first child when that child is a text node; for
/// text and comments, `text` is the node's own text.
#[derive(Debug, Clone, PartialEq)]
pub struct XmlNode {
    pub is_element: bool,
    pub name: String,
    pub attributes: Vec<XmlAttribute>,
    pub text: Option<String>,
    pub children: Vec<usize>,
}

/// A document as the list of its nodes in document order; index 0 is the
/// document root, and every child stands after its parent.
#[derive(Debug, Clone, PartialEq)]
pub struct XmlDocument {
    pub nodes: Vec<XmlNode>,
}

/// The view of an optional string.
pub open spec fn opt_view(s: Option<String>) -> Option<Seq<char>> {
    match s {
        Some(t) => Some(t@),
        None => None,
    }
}

/// The nodes that `roxmltree` produces from `text`, when it is well-formed XML.
pub uninterp spec fn parsed_nodes(text: Seq<char>) -> Option<Seq<XmlNode>>;

/// Relies on `roxmltree::Document::parse_with_options`, which fails on input
/// that is not well-formed XML (a document type declaration is let through, as
/// PubMed's responses carry one), and on `Document::descendants`, which lists
/// every node, the root first, in the order of their `NodeId`s; those ids are
/// the order in which the parser appended the nodes, so each child's id is
/// greater than its parent's. The node accessors `is_element`, `tag_name`,
/// `attributes`, `text` and `children` give the fields.
#[verifier::external_body]
fn parse_nodes(text: &str) -> (r: Result<Vec<XmlNode>, roxmltree::Error>)
    ensures
        r is Ok <==> parsed_nodes(text@) is Some,
        r is Ok ==> Some(r->Ok_0@) == parsed_nodes(text@),
        r is Ok ==> nodes_wf(r->Ok_0@) && r->Ok_0@.len() > 0,
{
    let opt = roxmltree::ParsingOptions { allow_dtd: true, ..Default::default() };
    let doc = roxmltree::Document::parse_with_options(text, opt)?;
    Ok(doc.descendants().map(|n| XmlNode {
        is_element: n.is_element(),
        name: n.tag_name().name().to_string(),
        attributes: n.attributes().map(|a| XmlAttribute {
            namespace: a.namespace().map(str::to_string),
            name: a.name().to_string(),
            value: a.value().to_string(),
        }).collect(),
        text: n.text().map(str::to_string),
        children: n.children().map(|c| c.id().get_usize()).collect(),
    }).collect())
}

#[verifier::external_type_specification]
#[verifier::external_body]
pub struct ExXmlError(roxmltree::Error);

/// Relies on the `Display` impl of `roxmltree::Error` for a readable message.
#[verifier::external_body]
fn xml_error_message(e: &roxmltree::Error) -> String {
    e.to_string()
}

/// Every child index of every node lies after the node and inside the list.
pub open spec fn nodes_wf(nodes: Seq<XmlNode>) -> bool {
    forall|i: int, k: int|
        0 <= i < nodes.len() && 0 <= k < nodes[i].children@.len() ==> i
            < #[trigger] nodes[i].children@[k] < nodes.len()
}

impl XmlDocument {
    pub open spec fn wf(&self) -> bool {
        nodes_wf(self.nodes@)
    }

    pub open spec fn len(&self) -> int {
        self.nodes@.len() as int
    }

    pub open spec fn node(&self, i: int) -> XmlNode {
        self.nodes@[i]
    }

    pub open spec fn kids(&self, i: int) -> Seq<usize> {
        self.nodes@[i].children@
    }

    pub open spec fn name_of(&self, i: int) -> Seq<char> {
        self.nodes@[i].name@
    }

    pub open spec fn text_of(&self, i: int) -> Option<Seq<char>> {
        opt_view(self.nodes@[i].text)
    }

    /// The text of a node, or the empty string where it has none.
    pub open spec fn text_or_empty(&self, i: int) -> Seq<char> {
        match self.text_of(i) {
            Some(t) => t,
            None => Seq::empty(),
        }
    }

    /// The value of the first attribute of node `i` that has no namespace and
    /// the local name `key`.
    pub open spec fn attr(&self, i: int, key: Seq<char>) -> Option<Seq<char>> {
        first_attr(self.nodes@[i].attributes@, key)
    }

    /// Whether node `i` has the attribute `key` with the value "Y".
    pub open spec fn flag(&self, i: int, key: Seq<char>) -> bool {
        self.attr(i, key) == Some(seq!['Y'])
    }

    /// Parses `text` as XML. Fails exactly when the text is not well-formed.
    pub fn parse(text: &str) -> (r: Result<XmlDocument, String>)
        ensures
            r is Ok <==> parsed_nodes(text@) is Some,
            r is Ok ==> Some(r->Ok_0.nodes@) == parsed_nodes(text@) && r->Ok_0.wf()
                && r->Ok_0.len() > 0,
    {
        match parse_nodes(text) {
            Ok(nodes) => Ok(XmlDocument { nodes }),
            Err(e) => Err(xml_error_message(&e)),
        }
    }

    /// The value of attribute `key` of node `i`, as `attr` states.
    pub fn attribute(&self, i: usize, key: &str) -> (r: Option<String>)
        requires
            i < self.len(),
        ensures
            opt_view(r) == self.attr(i as int, key@),
    {
        let attrs = &self.nodes[i].attributes;
        let mut k: usize = 0;
        assert(attrs@.skip(0) =~= attrs@);
        while k < attrs.len()
            invariant
                k <= attrs@.len(),
                attrs == self.nodes@[i as int].attributes,
                first_attr(attrs@, key@) == first_attr(attrs@.skip(k as int), key@),
            decreases attrs@.len() - k,
        {
            proof {
                assert(attrs@.skip(k as int).skip(1) =~= attrs@.skip(k + 1));
            }
            let a = &attrs[k];
            if a.namespace.is_none() && str_eq(a.name.as_str(), key) {
                return Some(a.value.clone());
            }
            k = k + 1;
        }
        None
    }

    /// Whether node `i` carries `key="Y"`.
    pub fn attribute_flag(&self, i: usize, key: &str) -> (r: bool)
        requires
            i < self.len(),
        ensures
            r == self.flag(i as int, key@),
    {
        match self.attribute(i, key) {
            Some(v) => {
                proof {
                    reveal_strlit("Y");
                }
                let y = str_eq(v.as_str(), "Y");
                assert(y == (v@ == seq!['Y'])) by {
                    assert("Y"@ =~= seq!['Y']);
                }
                y
            },
            None => false,
        }
    }

    /// A copy of the text of node `i`.
    pub fn text(&self, i: usize) -> (r: Option<String>)
        requires
            i < self.len(),
        ensures
            r == self.nodes@[i as int].text,
            opt_view(r) == self.text_of(i as int),
    {
        match &self.nodes[i].text {
            Some(t) => Some(t.clone()),
            None => None,
        }
    }

    /// The text of node `i`, or an empty string where it has none.
    pub fn text_or_empty_string(&self, i: usize) -> (r: String)
        requires
            i < self.len(),
        ensures
            r@ == self.text_or_empty(i as int),
    {
        match &self.nodes[i].text {
            Some(t) => t.clone(),
            None => String::new(),
        }
    }
}

/// The value of the first attribute in `attrs` without a namespace whose
/// local name is `key`.
pub open spec fn first_attr(attrs: Seq<XmlAttribute>, key: Seq<char>) -> Option<Seq<char>>
    decreases attrs.len(),
{
    if attrs.len() == 0 {
        None
    } else if attrs[0].namespace is None && attrs[0].name@ == key {
        Some(attrs[0].value@)
    } else {
        first_attr(attrs.skip(1), key)
    }
}

/// Compares two strings character by character.
pub fn str_eq(a: &str, b: &str) -> (r: bool)
    ensures
        r == (a@ == b@),
{
    let x = a.as_bytes();
    let y = b.as_bytes();
    if x.len() != y.len() {
        return false;
    }
    let mut i: usize = 0;
    while i < x.len()
        invariant
            x@.len() == y@.len(),
            i <= x@.len(),
            x@ == a.spec_bytes(),
            y@ == b.spec_bytes(),
            forall|j: int| 0 <= j < i ==> x@[j] == y@[j],
        decreases x@.len() - i,
    {
        if x[i] != y[i] {
            return false;
        }
        i = i + 1;
    }
    proof {
        assert(x@ =~= y@);
        encode_utf8_decode_utf8(a@);
        encode_utf8_decode_utf8(b@);
    }
    true
}

} // verus!
