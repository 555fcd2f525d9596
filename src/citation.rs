//! The citation record: MEDLINE citation data, PubMed publication data, and
//! the record that holds both.
use crate::article::{Article, Author, MeshHeading};
use crate::date::{lemma_with_year_push, with_year, PubMedDate};
use crate::dispatch::{
    collect_subtree, diagnostics_of, first_of, items_diagnostics, kids_diagnostics, last_of,
    last_text, lemma_items_push, lemma_of_tag_step, lemma_step, nested_items, of_tag, subtree,
    Diagnostic, Entity, Severity, Tag,
};
use crate::numbers::{read_u64, u64_or_zero};
use crate::xml::{opt_view, parsed_nodes, XmlDocument};
use vstd::prelude::*;

verus! {

/// MEDLINE's data on the journal of a citation.
#[derive(Debug, Clone, PartialEq)]
pub struct MedlineJournalInfo {
    pub country: Option<String>,
    pub medline_ta: Option<String>,
    pub nlm_unique_id: Option<String>,
    pub issn_linking: Option<String>,
}

impl MedlineJournalInfo {
    pub open spec fn decoded_from(&self, doc: XmlDocument, i: int) -> bool {
        let cs = doc.kids(i);
        &&& opt_view(self.country) == last_text(doc, cs, Tag::Country)
        &&& opt_view(self.medline_ta) == last_text(doc, cs, Tag::MedlineTa)
        &&& opt_view(self.nlm_unique_id) == last_text(doc, cs, Tag::NlmUniqueId)
        &&& opt_view(self.issn_linking) == last_text(doc, cs, Tag::IssnLinking)
    }

    /// Decodes a `MedlineJournalInfo` element; unrecognised children go to
    /// `diags`.
    pub fn new_from_xml(doc: &XmlDocument, i: usize, diags: &mut Vec<Diagnostic>) -> (r: Self)
        requires
            doc.wf(),
            i < doc.len(),
        ensures
            r.decoded_from(*doc, i as int),
            final(diags)@ == old(diags)@ + diagnostics_of(
                *doc,
                Entity::MedlineJournalInfo,
                i as int,
            ),
    {
        let mut ret = MedlineJournalInfo {
            country: None,
            medline_ta: None,
            nlm_unique_id: None,
            issn_linking: None,
        };
        let ghost start = old(diags)@;
        let ghost d = *doc;
        let kids = &doc.nodes[i].children;
        let ghost cs = kids@;
        let mut k: usize = 0;
        while k < kids.len()
            invariant
                doc.wf(),
                i < doc.len(),
                kids == doc.nodes@[i as int].children,
                cs == kids@,
                d == *doc,
                k <= cs.len(),
                opt_view(ret.country) == last_text(d, cs.take(k as int), Tag::Country),
                opt_view(ret.medline_ta) == last_text(d, cs.take(k as int), Tag::MedlineTa),
                opt_view(ret.nlm_unique_id) == last_text(d, cs.take(k as int), Tag::NlmUniqueId),
                opt_view(ret.issn_linking) == last_text(d, cs.take(k as int), Tag::IssnLinking),
                diags@ == start + kids_diagnostics(
                    d,
                    Entity::MedlineJournalInfo,
                    i as int,
                    cs.take(k as int),
                ),
            decreases cs.len() - k,
        {
            let c = kids[k];
            proof {
                lemma_step(d, Entity::MedlineJournalInfo, i as int, cs, k as int);
            }
            match doc.tag_of(c) {
                Tag::Country => ret.country = doc.text(c),
                Tag::MedlineTa => ret.medline_ta = doc.text(c),
                Tag::NlmUniqueId => ret.nlm_unique_id = doc.text(c),
                Tag::IssnLinking => ret.issn_linking = doc.text(c),
                Tag::NotElement => {},
                _ => diags.push(doc.make_diag(Entity::MedlineJournalInfo, c, Severity::Unrecognized)),
            }
            assert(diags@ =~= start + kids_diagnostics(
                d,
                Entity::MedlineJournalInfo,
                i as int,
                cs.take(k + 1),
            ));
            k = k + 1;
        }
        assert(cs.take(cs.len() as int) =~= cs);
        ret
    }
}

/// An identifier of the citation in another scheme.
#[derive(Debug, Clone, PartialEq)]
pub struct OtherID {
    pub source: Option<String>,
    pub id: Option<String>,
}

impl OtherID {
    pub open spec fn decoded_from(&self, doc: XmlDocument, i: int) -> bool {
        &&& opt_view(self.source) == doc.attr(i, "Source"@)
        &&& opt_view(self.id) == doc.text_of(i)
    }

    pub open spec fn all_decoded(s: Seq<OtherID>, doc: XmlDocument, ns: Seq<usize>) -> bool {
        &&& s.len() == ns.len()
        &&& forall|j: int| 0 <= j < s.len() ==> (#[trigger] s[j]).decoded_from(doc, ns[j] as int)
    }

    /// Decodes an `OtherID` element.
    pub fn new_from_xml(doc: &XmlDocument, i: usize) -> (r: Self)
        requires
            i < doc.len(),
        ensures
            r.decoded_from(*doc, i as int),
    {
        OtherID { source: doc.attribute(i, "Source"), id: doc.text(i) }
    }
}

/// A keyword, and whether it is a major topic of the citation.
#[derive(Debug, Clone, PartialEq)]
pub struct Keyword {
    pub keyword: String,
    pub major_topic: bool,
}

impl Keyword {
    pub open spec fn decoded_from(&self, doc: XmlDocument, i: int) -> bool {
        &&& self.keyword@ == doc.text_or_empty(i)
        &&& self.major_topic == doc.flag(i, "MajorTopicYN"@)
    }

    pub open spec fn all_decoded(s: Seq<Keyword>, doc: XmlDocument, ns: Seq<usize>) -> bool {
        &&& s.len() == ns.len()
        &&& forall|j: int| 0 <= j < s.len() ==> (#[trigger] s[j]).decoded_from(doc, ns[j] as int)
    }
}

/// The keywords that one owner gave a citation.
#[derive(Debug, Clone, PartialEq)]
pub struct KeywordList {
    pub owner: Option<String>,
    pub keywords: Vec<Keyword>,
}

impl KeywordList {
    pub open spec fn decoded_from(&self, doc: XmlDocument, i: int) -> bool {
        &&& opt_view(self.owner) == doc.attr(i, "Owner"@)
        &&& Keyword::all_decoded(self.keywords@, doc, of_tag(doc, doc.kids(i), Tag::Keyword))
    }

    pub open spec fn all_decoded(s: Seq<KeywordList>, doc: XmlDocument, ns: Seq<usize>) -> bool {
        &&& s.len() == ns.len()
        &&& forall|j: int| 0 <= j < s.len() ==> (#[trigger] s[j]).decoded_from(doc, ns[j] as int)
    }

    /// Decodes a `KeywordList` element; unrecognised children go to `diags`.
    pub fn new_from_xml(doc: &XmlDocument, i: usize, diags: &mut Vec<Diagnostic>) -> (r: Self)
        requires
            doc.wf(),
            i < doc.len(),
        ensures
            r.decoded_from(*doc, i as int),
            final(diags)@ == old(diags)@ + diagnostics_of(*doc, Entity::KeywordList, i as int),
    {
        let mut ret = KeywordList { owner: doc.attribute(i, "Owner"), keywords: Vec::new() };
        let ghost start = old(diags)@;
        let ghost d = *doc;
        let kids = &doc.nodes[i].children;
        let ghost cs = kids@;
        let mut k: usize = 0;
        while k < kids.len()
            invariant
                doc.wf(),
                i < doc.len(),
                kids == doc.nodes@[i as int].children,
                cs == kids@,
                d == *doc,
                k <= cs.len(),
                opt_view(ret.owner) == d.attr(i as int, "Owner"@),
                Keyword::all_decoded(ret.keywords@, d, of_tag(d, cs.take(k as int), Tag::Keyword)),
                diags@ == start + kids_diagnostics(
                    d,
                    Entity::KeywordList,
                    i as int,
                    cs.take(k as int),
                ),
            decreases cs.len() - k,
        {
            let c = kids[k];
            proof {
                lemma_step(d, Entity::KeywordList, i as int, cs, k as int);
            }
            match doc.tag_of(c) {
                Tag::Keyword => ret.keywords.push(
                    Keyword {
                        major_topic: doc.attribute_flag(c, "MajorTopicYN"),
                        keyword: doc.text_or_empty_string(c),
                    },
                ),
                Tag::NotElement => {},
                _ => diags.push(doc.make_diag(Entity::KeywordList, c, Severity::Unrecognized)),
            }
            assert(diags@ =~= start + kids_diagnostics(
                d,
                Entity::KeywordList,
                i as int,
                cs.take(k + 1),
            ));
            k = k + 1;
        }
        assert(cs.take(cs.len() as int) =~= cs);
        ret
    }
}

/// A chemical substance that a citation names.
#[derive(Debug, Clone, PartialEq)]
pub struct Chemical {
    pub registry_number: Option<String>,
    pub name_of_substance: Option<String>,
    pub name_of_substance_ui: Option<String>,
}

impl Chemical {
    /// The last `NameOfSubstance` child gives both the name and its id.
    pub open spec fn decoded_from(&self, doc: XmlDocument, i: int) -> bool {
        let cs = doc.kids(i);
        &&& opt_view(self.registry_number) == last_text(doc, cs, Tag::RegistryNumber)
        &&& match last_of(doc, cs, Tag::NameOfSubstance) {
            None => self.name_of_substance is None && self.name_of_substance_ui is None,
            Some(c) => opt_view(self.name_of_substance) == doc.text_of(c as int) && opt_view(
                self.name_of_substance_ui,
            ) == doc.attr(c as int, "UI"@),
        }
    }

    pub open spec fn all_decoded(s: Seq<Chemical>, doc: XmlDocument, ns: Seq<usize>) -> bool {
        &&& s.len() == ns.len()
        &&& forall|j: int| 0 <= j < s.len() ==> (#[trigger] s[j]).decoded_from(doc, ns[j] as int)
    }

    /// Decodes a `Chemical` element; unrecognised children go to `diags`.
    pub fn new_from_xml(doc: &XmlDocument, i: usize, diags: &mut Vec<Diagnostic>) -> (r: Self)
        requires
            doc.wf(),
            i < doc.len(),
        ensures
            r.decoded_from(*doc, i as int),
            final(diags)@ == old(diags)@ + diagnostics_of(*doc, Entity::Chemical, i as int),
    {
        let mut ret = Chemical {
            registry_number: None,
            name_of_substance: None,
            name_of_substance_ui: None,
        };
        let ghost start = old(diags)@;
        let ghost d = *doc;
        let kids = &doc.nodes[i].children;
        let ghost cs = kids@;
        let mut k: usize = 0;
        while k < kids.len()
            invariant
                doc.wf(),
                i < doc.len(),
                kids == doc.nodes@[i as int].children,
                cs == kids@,
                d == *doc,
                k <= cs.len(),
                opt_view(ret.registry_number) == last_text(
                    d,
                    cs.take(k as int),
                    Tag::RegistryNumber,
                ),
                match last_of(d, cs.take(k as int), Tag::NameOfSubstance) {
                    None => ret.name_of_substance is None && ret.name_of_substance_ui is None,
                    Some(c) => opt_view(ret.name_of_substance) == d.text_of(c as int) && opt_view(
                        ret.name_of_substance_ui,
                    ) == d.attr(c as int, "UI"@),
                },
                diags@ == start + kids_diagnostics(d, Entity::Chemical, i as int, cs.take(k as int)),
            decreases cs.len() - k,
        {
            let c = kids[k];
            proof {
                lemma_step(d, Entity::Chemical, i as int, cs, k as int);
            }
            match doc.tag_of(c) {
                Tag::RegistryNumber => ret.registry_number = doc.text(c),
                Tag::NameOfSubstance => {
                    ret.name_of_substance = doc.text(c);
                    ret.name_of_substance_ui = doc.attribute(c, "UI");
                },
                Tag::NotElement => {},
                _ => diags.push(doc.make_diag(Entity::Chemical, c, Severity::Unrecognized)),
            }
            assert(diags@ =~= start + kids_diagnostics(d, Entity::Chemical, i as int, cs.take(k + 1)));
            k = k + 1;
        }
        assert(cs.take(cs.len() as int) =~= cs);
        ret
    }
}

/// Appends the chemicals of `ChemicalList` element `i` to `out`.
fn add_chemicals(
    doc: &XmlDocument,
    i: usize,
    out: &mut Vec<Chemical>,
    diags: &mut Vec<Diagnostic>,
    Ghost(ns): Ghost<Seq<usize>>,
)
    requires
        doc.wf(),
        i < doc.len(),
        Chemical::all_decoded(old(out)@, *doc, ns),
    ensures
        Chemical::all_decoded(final(out)@, *doc, ns + of_tag(*doc, doc.kids(i as int), Tag::Chemical)),
        final(diags)@ == old(diags)@ + diagnostics_of(*doc, Entity::ChemicalList, i as int),
{
    let ghost start = old(diags)@;
    let ghost d = *doc;
    let kids = &doc.nodes[i].children;
    let ghost cs = kids@;
    let mut k: usize = 0;
    while k < kids.len()
        invariant
            doc.wf(),
            i < doc.len(),
            kids == doc.nodes@[i as int].children,
            cs == kids@,
            d == *doc,
            k <= cs.len(),
            Chemical::all_decoded(out@, d, ns + of_tag(d, cs.take(k as int), Tag::Chemical)),
            diags@ == start + kids_diagnostics(d, Entity::ChemicalList, i as int, cs.take(k as int)),
        decreases cs.len() - k,
    {
        let c = kids[k];
        proof {
            lemma_step(d, Entity::ChemicalList, i as int, cs, k as int);
            assert(ns + of_tag(d, cs.take(k as int), Tag::Chemical).push(c) =~= (ns + of_tag(
                d,
                cs.take(k as int),
                Tag::Chemical,
            )).push(c));
        }
        match doc.tag_of(c) {
            Tag::Chemical => out.push(Chemical::new_from_xml(doc, c, diags)),
            Tag::NotElement => {},
            _ => diags.push(doc.make_diag(Entity::ChemicalList, c, Severity::Unrecognized)),
        }
        assert(diags@ =~= start + kids_diagnostics(d, Entity::ChemicalList, i as int, cs.take(k + 1)));
        k = k + 1;
    }
    assert(cs.take(cs.len() as int) =~= cs);
}

/// Appends the investigators of `InvestigatorList` element `i` to `out`.
fn add_investigators(
    doc: &XmlDocument,
    i: usize,
    out: &mut Vec<Author>,
    diags: &mut Vec<Diagnostic>,
    Ghost(ns): Ghost<Seq<usize>>,
)
    requires
        doc.wf(),
        i < doc.len(),
        Author::all_decoded(old(out)@, *doc, ns),
    ensures
        Author::all_decoded(final(out)@, *doc, ns + of_tag(*doc, doc.kids(i as int), Tag::Investigator)),
        final(diags)@ == old(diags)@ + diagnostics_of(*doc, Entity::InvestigatorList, i as int),
{
    let ghost start = old(diags)@;
    let ghost d = *doc;
    let kids = &doc.nodes[i].children;
    let ghost cs = kids@;
    let mut k: usize = 0;
    while k < kids.len()
        invariant
            doc.wf(),
            i < doc.len(),
            kids == doc.nodes@[i as int].children,
            cs == kids@,
            d == *doc,
            k <= cs.len(),
            Author::all_decoded(out@, d, ns + of_tag(d, cs.take(k as int), Tag::Investigator)),
            diags@ == start + kids_diagnostics(
                d,
                Entity::InvestigatorList,
                i as int,
                cs.take(k as int),
            ),
        decreases cs.len() - k,
    {
        let c = kids[k];
        proof {
            lemma_step(d, Entity::InvestigatorList, i as int, cs, k as int);
            assert(ns + of_tag(d, cs.take(k as int), Tag::Investigator).push(c) =~= (ns + of_tag(
                d,
                cs.take(k as int),
                Tag::Investigator,
            )).push(c));
        }
        match doc.tag_of(c) {
            Tag::Investigator => out.push(Author::new_from_xml(doc, c, diags)),
            Tag::NotElement => {},
            _ => diags.push(doc.make_diag(Entity::InvestigatorList, c, Severity::Unrecognized)),
        }
        assert(diags@ =~= start + kids_diagnostics(
            d,
            Entity::InvestigatorList,
            i as int,
            cs.take(k + 1),
        ));
        k = k + 1;
    }
    assert(cs.take(cs.len() as int) =~= cs);
}

/// Each string is the text of its node, empty where the node has none.
pub open spec fn texts_of(s: Seq<String>, doc: XmlDocument, ns: Seq<usize>) -> bool {
    &&& s.len() == ns.len()
    &&& forall|j: int| 0 <= j < s.len() ==> (#[trigger] s[j])@ == doc.text_or_empty(ns[j] as int)
}

/// Appends the gene symbols of `GeneSymbolList` element `i` to `out`.
fn add_gene_symbols(
    doc: &XmlDocument,
    i: usize,
    out: &mut Vec<String>,
    diags: &mut Vec<Diagnostic>,
    Ghost(ns): Ghost<Seq<usize>>,
)
    requires
        doc.wf(),
        i < doc.len(),
        texts_of(old(out)@, *doc, ns),
    ensures
        texts_of(final(out)@, *doc, ns + of_tag(*doc, doc.kids(i as int), Tag::GeneSymbol)),
        final(diags)@ == old(diags)@ + diagnostics_of(*doc, Entity::GeneSymbolList, i as int),
{
    let ghost start = old(diags)@;
    let ghost d = *doc;
    let kids = &doc.nodes[i].children;
    let ghost cs = kids@;
    let mut k: usize = 0;
    while k < kids.len()
        invariant
            doc.wf(),
            i < doc.len(),
            kids == doc.nodes@[i as int].children,
            cs == kids@,
            d == *doc,
            k <= cs.len(),
            texts_of(out@, d, ns + of_tag(d, cs.take(k as int), Tag::GeneSymbol)),
            diags@ == start + kids_diagnostics(
                d,
                Entity::GeneSymbolList,
                i as int,
                cs.take(k as int),
            ),
        decreases cs.len() - k,
    {
        let c = kids[k];
        proof {
            lemma_step(d, Entity::GeneSymbolList, i as int, cs, k as int);
            assert(ns + of_tag(d, cs.take(k as int), Tag::GeneSymbol).push(c) =~= (ns + of_tag(
                d,
                cs.take(k as int),
                Tag::GeneSymbol,
            )).push(c));
        }
        match doc.tag_of(c) {
            Tag::GeneSymbol => out.push(doc.text_or_empty_string(c)),
            Tag::NotElement => {},
            _ => diags.push(doc.make_diag(Entity::GeneSymbolList, c, Severity::Unrecognized)),
        }
        assert(diags@ =~= start + kids_diagnostics(
            d,
            Entity::GeneSymbolList,
            i as int,
            cs.take(k + 1),
        ));
        k = k + 1;
    }
    assert(cs.take(cs.len() as int) =~= cs);
}

/// The MeSH heading elements among `ns` that hold a descriptor, in order.
pub open spec fn with_descriptor(doc: XmlDocument, ns: Seq<usize>) -> Seq<usize>
    decreases ns.len(),
{
    if ns.len() == 0 {
        Seq::empty()
    } else {
        let rest = with_descriptor(doc, ns.drop_last());
        if first_of(doc, subtree(doc, ns.last() as int), Tag::DescriptorName) is Some {
            rest.push(ns.last())
        } else {
            rest
        }
    }
}

/// The headings of `MeshHeadingList` element `i`: every `MeshHeading` at or
/// below it that holds a descriptor, in document order.
fn mesh_headings(doc: &XmlDocument, i: usize) -> (r: Vec<MeshHeading>)
    requires
        doc.wf(),
        i < doc.len(),
    ensures
        MeshHeading::all_decoded(
            r@,
            *doc,
            with_descriptor(*doc, of_tag(*doc, subtree(*doc, i as int), Tag::MeshHeading)),
        ),
{
    let mut sub: Vec<usize> = Vec::new();
    collect_subtree(doc, i, &mut sub);
    assert(sub@ =~= subtree(*doc, i as int));
    let ghost d = *doc;
    let ghost ss = sub@;
    let mut out: Vec<MeshHeading> = Vec::new();
    let mut k: usize = 0;
    while k < sub.len()
        invariant
            doc.wf(),
            d == *doc,
            ss == sub@,
            forall|j: int| 0 <= j < ss.len() ==> i <= #[trigger] ss[j] < d.len(),
            k <= ss.len(),
            MeshHeading::all_decoded(
                out@,
                d,
                with_descriptor(d, of_tag(d, ss.take(k as int), Tag::MeshHeading)),
            ),
        decreases ss.len() - k,
    {
        let c = sub[k];
        let ghost prev = of_tag(d, ss.take(k as int), Tag::MeshHeading);
        proof {
            lemma_of_tag_step(d, ss, k as int);
            assert(prev.push(c).drop_last() =~= prev);
        }
        if let Tag::MeshHeading = doc.tag_of(c) {
            if let Some(h) = MeshHeading::new_from_xml(doc, c) {
                out.push(h);
            }
        }
        k = k + 1;
    }
    assert(ss.take(ss.len() as int) =~= ss);
    out
}

/// An identifier of an article in some scheme, such as a DOI.
#[derive(Debug, Clone, PartialEq)]
pub struct ArticleId {
    pub id_type: Option<String>,
    pub id: Option<String>,
}

impl ArticleId {
    pub open spec fn decoded_from(&self, doc: XmlDocument, i: int) -> bool {
        &&& opt_view(self.id_type) == doc.attr(i, "IdType"@)
        &&& opt_view(self.id) == doc.text_of(i)
    }

    pub open spec fn all_decoded(s: Seq<ArticleId>, doc: XmlDocument, ns: Seq<usize>) -> bool {
        &&& s.len() == ns.len()
        &&& forall|j: int| 0 <= j < s.len() ==> (#[trigger] s[j]).decoded_from(doc, ns[j] as int)
    }
}

/// The identifiers of an article.
#[derive(Debug, Clone, PartialEq)]
pub struct ArticleIdList {
    pub ids: Vec<ArticleId>,
}

impl ArticleIdList {
    pub open spec fn decoded_from(&self, doc: XmlDocument, i: int) -> bool {
        ArticleId::all_decoded(self.ids@, doc, of_tag(doc, doc.kids(i), Tag::ArticleId))
    }

    /// Decodes an `ArticleIdList` element; unrecognised children go to `diags`.
    pub fn new_from_xml(doc: &XmlDocument, i: usize, diags: &mut Vec<Diagnostic>) -> (r: Self)
        requires
            doc.wf(),
            i < doc.len(),
        ensures
            r.decoded_from(*doc, i as int),
            final(diags)@ == old(diags)@ + diagnostics_of(*doc, Entity::ArticleIdList, i as int),
    {
        let mut ret = ArticleIdList { ids: Vec::new() };
        let ghost start = old(diags)@;
        let ghost d = *doc;
        let kids = &doc.nodes[i].children;
        let ghost cs = kids@;
        let mut k: usize = 0;
        while k < kids.len()
            invariant
                doc.wf(),
                i < doc.len(),
                kids == doc.nodes@[i as int].children,
                cs == kids@,
                d == *doc,
                k <= cs.len(),
                ArticleId::all_decoded(ret.ids@, d, of_tag(d, cs.take(k as int), Tag::ArticleId)),
                diags@ == start + kids_diagnostics(
                    d,
                    Entity::ArticleIdList,
                    i as int,
                    cs.take(k as int),
                ),
            decreases cs.len() - k,
        {
            let c = kids[k];
            proof {
                lemma_step(d, Entity::ArticleIdList, i as int, cs, k as int);
            }
            match doc.tag_of(c) {
                Tag::ArticleId => ret.ids.push(
                    ArticleId { id_type: doc.attribute(c, "IdType"), id: doc.text(c) },
                ),
                Tag::NotElement => {},
                _ => diags.push(doc.make_diag(Entity::ArticleIdList, c, Severity::Unrecognized)),
            }
            assert(diags@ =~= start + kids_diagnostics(
                d,
                Entity::ArticleIdList,
                i as int,
                cs.take(k + 1),
            ));
            k = k + 1;
        }
        assert(cs.take(cs.len() as int) =~= cs);
        ret
    }
}

/// A work that the article cites.
#[derive(Debug, Clone, PartialEq)]
pub struct Reference {
    pub citation: Option<String>,
    pub article_ids: Option<ArticleIdList>,
}

impl Reference {
    pub open spec fn decoded_from(&self, doc: XmlDocument, i: int) -> bool {
        let cs = doc.kids(i);
        &&& opt_view(self.citation) == last_text(doc, cs, Tag::Citation)
        &&& match last_of(doc, cs, Tag::ArticleIdList) {
            None => self.article_ids is None,
            Some(c) => self.article_ids is Some && self.article_ids->Some_0.decoded_from(
                doc,
                c as int,
            ),
        }
    }

    pub open spec fn all_decoded(s: Seq<Reference>, doc: XmlDocument, ns: Seq<usize>) -> bool {
        &&& s.len() == ns.len()
        &&& forall|j: int| 0 <= j < s.len() ==> (#[trigger] s[j]).decoded_from(doc, ns[j] as int)
    }

    /// Decodes a `Reference` element; unrecognised children go to `diags`.
    pub fn new_from_xml(doc: &XmlDocument, i: usize, diags: &mut Vec<Diagnostic>) -> (r: Self)
        requires
            doc.wf(),
            i < doc.len(),
        ensures
            r.decoded_from(*doc, i as int),
            final(diags)@ == old(diags)@ + diagnostics_of(*doc, Entity::Reference, i as int),
    {
        let mut ret = Reference { citation: None, article_ids: None };
        let ghost start = old(diags)@;
        let ghost d = *doc;
        let kids = &doc.nodes[i].children;
        let ghost cs = kids@;
        let mut k: usize = 0;
        while k < kids.len()
            invariant
                doc.wf(),
                i < doc.len(),
                kids == doc.nodes@[i as int].children,
                cs == kids@,
                d == *doc,
                k <= cs.len(),
                opt_view(ret.citation) == last_text(d, cs.take(k as int), Tag::Citation),
                match last_of(d, cs.take(k as int), Tag::ArticleIdList) {
                    None => ret.article_ids is None,
                    Some(c) => ret.article_ids is Some && ret.article_ids->Some_0.decoded_from(
                        d,
                        c as int,
                    ),
                },
                diags@ == start + kids_diagnostics(d, Entity::Reference, i as int, cs.take(k as int)),
            decreases cs.len() - k,
        {
            let c = kids[k];
            proof {
                lemma_step(d, Entity::Reference, i as int, cs, k as int);
            }
            match doc.tag_of(c) {
                Tag::Citation => ret.citation = doc.text(c),
                Tag::ArticleIdList => {
                    ret.article_ids = Some(ArticleIdList::new_from_xml(doc, c, diags));
                },
                Tag::NotElement => {},
                _ => diags.push(doc.make_diag(Entity::Reference, c, Severity::Unrecognized)),
            }
            assert(diags@ =~= start + kids_diagnostics(d, Entity::Reference, i as int, cs.take(k + 1)));
            k = k + 1;
        }
        assert(cs.take(cs.len() as int) =~= cs);
        ret
    }
}

/// The nodes among `ns` that have text, in order.
pub open spec fn with_text(doc: XmlDocument, ns: Seq<usize>) -> Seq<usize>
    decreases ns.len(),
{
    if ns.len() == 0 {
        Seq::empty()
    } else {
        let rest = with_text(doc, ns.drop_last());
        if doc.text_of(ns.last() as int) is Some {
            rest.push(ns.last())
        } else {
            rest
        }
    }
}

/// Each string is the text of its node.
pub open spec fn present_texts(s: Seq<String>, doc: XmlDocument, ns: Seq<usize>) -> bool {
    &&& s.len() == ns.len()
    &&& forall|j: int| 0 <= j < s.len() ==> Some((#[trigger] s[j])@) == doc.text_of(ns[j] as int)
}

/// The identifier that the `PMID` children among `cs` give: the last one with
/// text, read as a number, 0 where it is not one; 0 where there is none.
pub open spec fn pmid_in(doc: XmlDocument, cs: Seq<usize>) -> u64
    decreases cs.len(),
{
    if cs.len() == 0 {
        0
    } else {
        let c = cs.last() as int;
        if doc.tag(c) == Tag::Pmid && doc.text_of(c) is Some {
            u64_or_zero(doc.text_of(c)->Some_0)
        } else {
            pmid_in(doc, cs.drop_last())
        }
    }
}

/// The MEDLINE part of a citation record.
#[derive(Debug, Clone, PartialEq)]
pub struct MedlineCitation {
    pub pmid: u64,
    pub date_completed: Option<PubMedDate>,
    pub date_revised: Option<PubMedDate>,
    pub mesh_heading_list: Vec<MeshHeading>,
    pub medline_journal_info: Option<MedlineJournalInfo>,
    pub article: Option<Article>,
    pub other_ids: Vec<OtherID>,
    pub citation_subsets: Vec<String>,
    pub gene_symbol_list: Vec<String>,
    pub keyword_lists: Vec<KeywordList>,
    pub chemical_list: Vec<Chemical>,
    pub investigator_list: Vec<Author>,
    pub coi_statement: Option<String>,
    pub number_of_references: Option<String>,
}

impl MedlineCitation {
    /// A citation with nothing known; its identifier is 0.
    pub fn new() -> (r: Self)
        ensures
            r.pmid == 0,
            r.date_completed is None,
            r.date_revised is None,
            r.mesh_heading_list@.len() == 0,
            r.medline_journal_info is None,
            r.article is None,
            r.other_ids@.len() == 0,
            r.citation_subsets@.len() == 0,
            r.gene_symbol_list@.len() == 0,
            r.keyword_lists@.len() == 0,
            r.chemical_list@.len() == 0,
            r.investigator_list@.len() == 0,
            r.coi_statement is None,
            r.number_of_references is None,
    {
        MedlineCitation {
            pmid: 0,
            date_completed: None,
            date_revised: None,
            mesh_heading_list: Vec::new(),
            medline_journal_info: None,
            article: None,
            other_ids: Vec::new(),
            citation_subsets: Vec::new(),
            gene_symbol_list: Vec::new(),
            keyword_lists: Vec::new(),
            chemical_list: Vec::new(),
            investigator_list: Vec::new(),
            coi_statement: None,
            number_of_references: None,
        }
    }

    /// What the children `cs` of a citation element give. Scalars and single
    /// parts come from the last element of their name (a date element without
    /// a year leaves no date); lists accumulate across repeated elements, but
    /// the last `MeshHeadingList` alone gives the headings.
    pub open spec fn decoded_in(&self, doc: XmlDocument, cs: Seq<usize>) -> bool {
        &&& self.pmid == pmid_in(doc, cs)
        &&& opt_view(self.coi_statement) == last_text(doc, cs, Tag::CoiStatement)
        &&& opt_view(self.number_of_references) == last_text(doc, cs, Tag::NumberOfReferences)
        &&& KeywordList::all_decoded(self.keyword_lists@, doc, of_tag(doc, cs, Tag::KeywordList))
        &&& Chemical::all_decoded(
            self.chemical_list@,
            doc,
            nested_items(doc, cs, Tag::ChemicalList, Tag::Chemical),
        )
        &&& texts_of(
            self.gene_symbol_list@,
            doc,
            nested_items(doc, cs, Tag::GeneSymbolList, Tag::GeneSymbol),
        )
        &&& Author::all_decoded(
            self.investigator_list@,
            doc,
            nested_items(doc, cs, Tag::InvestigatorList, Tag::Investigator),
        )
        &&& OtherID::all_decoded(self.other_ids@, doc, of_tag(doc, cs, Tag::OtherId))
        &&& present_texts(
            self.citation_subsets@,
            doc,
            with_text(doc, of_tag(doc, cs, Tag::CitationSubset)),
        )
        &&& match last_of(doc, cs, Tag::DateCompleted) {
            None => self.date_completed is None,
            Some(c) => PubMedDate::decodes(self.date_completed, doc, c as int),
        }
        &&& match last_of(doc, cs, Tag::DateRevised) {
            None => self.date_revised is None,
            Some(c) => PubMedDate::decodes(self.date_revised, doc, c as int),
        }
        &&& match last_of(doc, cs, Tag::Article) {
            None => self.article is None,
            Some(c) => self.article is Some && self.article->Some_0.decoded_from(doc, c as int),
        }
        &&& match last_of(doc, cs, Tag::MedlineJournalInfo) {
            None => self.medline_journal_info is None,
            Some(c) => self.medline_journal_info is Some
                && self.medline_journal_info->Some_0.decoded_from(doc, c as int),
        }
        &&& match last_of(doc, cs, Tag::MeshHeadingList) {
            None => self.mesh_heading_list@.len() == 0,
            Some(c) => MeshHeading::all_decoded(
                self.mesh_heading_list@,
                doc,
                with_descriptor(doc, of_tag(doc, subtree(doc, c as int), Tag::MeshHeading)),
            ),
        }
    }

    pub open spec fn decoded_from(&self, doc: XmlDocument, i: int) -> bool {
        self.decoded_in(doc, doc.kids(i))
    }

    /// Decodes a `MedlineCitation` element; unrecognised children, here and
    /// in its parts, go to `diags`.
    #[verifier::rlimit(100)]
    pub fn new_from_xml(doc: &XmlDocument, i: usize, diags: &mut Vec<Diagnostic>) -> (r: Self)
        requires
            doc.wf(),
            i < doc.len(),
        ensures
            r.decoded_from(*doc, i as int),
            final(diags)@ == old(diags)@ + diagnostics_of(*doc, Entity::MedlineCitation, i as int),
    {
        let mut ret = Self::new();
        let ghost start = old(diags)@;
        let ghost d = *doc;
        let kids = &doc.nodes[i].children;
        let ghost cs = kids@;
        let mut k: usize = 0;
        while k < kids.len()
            invariant
                doc.wf(),
                i < doc.len(),
                kids == doc.nodes@[i as int].children,
                cs == kids@,
                d == *doc,
                k <= cs.len(),
                ret.decoded_in(d, cs.take(k as int)),
                diags@ == start + kids_diagnostics(
                    d,
                    Entity::MedlineCitation,
                    i as int,
                    cs.take(k as int),
                ),
            decreases cs.len() - k,
        {
            let c = kids[k];
            let ghost prev = cs.take(k as int);
            proof {
                lemma_step(d, Entity::MedlineCitation, i as int, cs, k as int);
                assert(cs.take(k + 1).drop_last() =~= prev);
                let subsets = of_tag(d, prev, Tag::CitationSubset);
                assert(subsets.push(c).drop_last() =~= subsets);
            }
            match doc.tag_of(c) {
                Tag::Pmid => {
                    if let Some(id) = &doc.nodes[c].text {
                        ret.pmid = read_u64(id.as_str());
                    }
                },
                Tag::CoiStatement => ret.coi_statement = doc.text(c),
                Tag::NumberOfReferences => ret.number_of_references = doc.text(c),
                Tag::KeywordList => ret.keyword_lists.push(KeywordList::new_from_xml(doc, c, diags)),
                Tag::ChemicalList => add_chemicals(
                    doc,
                    c,
                    &mut ret.chemical_list,
                    diags,
                    Ghost(nested_items(d, prev, Tag::ChemicalList, Tag::Chemical)),
                ),
                Tag::GeneSymbolList => add_gene_symbols(
                    doc,
                    c,
                    &mut ret.gene_symbol_list,
                    diags,
                    Ghost(nested_items(d, prev, Tag::GeneSymbolList, Tag::GeneSymbol)),
                ),
                Tag::InvestigatorList => add_investigators(
                    doc,
                    c,
                    &mut ret.investigator_list,
                    diags,
                    Ghost(nested_items(d, prev, Tag::InvestigatorList, Tag::Investigator)),
                ),
                Tag::OtherId => ret.other_ids.push(OtherID::new_from_xml(doc, c)),
                Tag::CitationSubset => {
                    if let Some(subset) = doc.text(c) {
                        ret.citation_subsets.push(subset);
                    }
                },
                Tag::DateCompleted => ret.date_completed = PubMedDate::new_from_xml(doc, c, diags),
                Tag::DateRevised => ret.date_revised = PubMedDate::new_from_xml(doc, c, diags),
                Tag::Article => ret.article = Some(Article::new_from_xml(doc, c, diags)),
                Tag::MedlineJournalInfo => {
                    ret.medline_journal_info = Some(MedlineJournalInfo::new_from_xml(doc, c, diags));
                },
                Tag::MeshHeadingList => ret.mesh_heading_list = mesh_headings(doc, c),
                Tag::PersonalNameSubjectList | Tag::GeneralNote | Tag::OtherAbstract
                | Tag::SupplMeshList | Tag::CommentsCorrectionsList => {
                    diags.push(doc.make_diag(Entity::MedlineCitation, c, Severity::Unsupported));
                },
                Tag::NotElement => {},
                _ => diags.push(doc.make_diag(Entity::MedlineCitation, c, Severity::Unrecognized)),
            }
            assert(diags@ =~= start + kids_diagnostics(
                d,
                Entity::MedlineCitation,
                i as int,
                cs.take(k + 1),
            ));
            k = k + 1;
        }
        assert(cs.take(cs.len() as int) =~= cs);
        ret
    }
}

/// Appends the references of `ReferenceList` element `i` to `out`.
fn add_references(
    doc: &XmlDocument,
    i: usize,
    out: &mut Vec<Reference>,
    diags: &mut Vec<Diagnostic>,
    Ghost(ns): Ghost<Seq<usize>>,
)
    requires
        doc.wf(),
        i < doc.len(),
        Reference::all_decoded(old(out)@, *doc, ns),
    ensures
        Reference::all_decoded(final(out)@, *doc, ns + of_tag(*doc, doc.kids(i as int), Tag::Reference)),
        final(diags)@ == old(diags)@ + diagnostics_of(*doc, Entity::ReferenceList, i as int),
{
    let ghost start = old(diags)@;
    let ghost d = *doc;
    let kids = &doc.nodes[i].children;
    let ghost cs = kids@;
    let mut k: usize = 0;
    while k < kids.len()
        invariant
            doc.wf(),
            i < doc.len(),
            kids == doc.nodes@[i as int].children,
            cs == kids@,
            d == *doc,
            k <= cs.len(),
            Reference::all_decoded(out@, d, ns + of_tag(d, cs.take(k as int), Tag::Reference)),
            diags@ == start + kids_diagnostics(d, Entity::ReferenceList, i as int, cs.take(k as int)),
        decreases cs.len() - k,
    {
        let c = kids[k];
        proof {
            lemma_step(d, Entity::ReferenceList, i as int, cs, k as int);
            assert(ns + of_tag(d, cs.take(k as int), Tag::Reference).push(c) =~= (ns + of_tag(
                d,
                cs.take(k as int),
                Tag::Reference,
            )).push(c));
        }
        match doc.tag_of(c) {
            Tag::Reference => out.push(Reference::new_from_xml(doc, c, diags)),
            Tag::NotElement => {},
            _ => diags.push(doc.make_diag(Entity::ReferenceList, c, Severity::Unrecognized)),
        }
        assert(diags@ =~= start + kids_diagnostics(d, Entity::ReferenceList, i as int, cs.take(k + 1)));
        k = k + 1;
    }
    assert(cs.take(cs.len() as int) =~= cs);
}

/// Appends the dates of `History` element `i` that name a year to `out`.
fn add_history(
    doc: &XmlDocument,
    i: usize,
    out: &mut Vec<PubMedDate>,
    diags: &mut Vec<Diagnostic>,
    Ghost(ns): Ghost<Seq<usize>>,
)
    requires
        doc.wf(),
        i < doc.len(),
        PubMedDate::all_decoded(old(out)@, *doc, with_year(*doc, ns)),
    ensures
        PubMedDate::all_decoded(
            final(out)@,
            *doc,
            with_year(*doc, ns + of_tag(*doc, doc.kids(i as int), Tag::PubMedPubDate)),
        ),
        final(diags)@ == old(diags)@ + diagnostics_of(*doc, Entity::History, i as int),
{
    let ghost start = old(diags)@;
    let ghost d = *doc;
    let kids = &doc.nodes[i].children;
    let ghost cs = kids@;
    let mut k: usize = 0;
    assert(ns + of_tag(d, cs.take(0), Tag::PubMedPubDate) =~= ns);
    while k < kids.len()
        invariant
            doc.wf(),
            i < doc.len(),
            kids == doc.nodes@[i as int].children,
            cs == kids@,
            d == *doc,
            k <= cs.len(),
            PubMedDate::all_decoded(
                out@,
                d,
                with_year(d, ns + of_tag(d, cs.take(k as int), Tag::PubMedPubDate)),
            ),
            diags@ == start + kids_diagnostics(d, Entity::History, i as int, cs.take(k as int)),
        decreases cs.len() - k,
    {
        let c = kids[k];
        let ghost prev = ns + of_tag(d, cs.take(k as int), Tag::PubMedPubDate);
        proof {
            lemma_step(d, Entity::History, i as int, cs, k as int);
            assert(ns + of_tag(d, cs.take(k as int), Tag::PubMedPubDate).push(c) =~= prev.push(c));
            lemma_with_year_push(d, prev, c);
        }
        match doc.tag_of(c) {
            Tag::PubMedPubDate => {
                if let Some(date) = PubMedDate::new_from_xml(doc, c, diags) {
                    out.push(date);
                }
            },
            Tag::NotElement => {},
            _ => diags.push(doc.make_diag(Entity::History, c, Severity::Unrecognized)),
        }
        assert(diags@ =~= start + kids_diagnostics(d, Entity::History, i as int, cs.take(k + 1)));
        k = k + 1;
    }
    assert(cs.take(cs.len() as int) =~= cs);
}

/// The PubMed part of a citation record: identifiers, history and references.
#[derive(Debug, Clone, PartialEq)]
pub struct PubmedData {
    pub article_ids: Option<ArticleIdList>,
    pub history: Vec<PubMedDate>,
    pub references: Vec<Reference>,
    pub publication_status: Option<String>,
}

impl PubmedData {
    pub open spec fn decoded_in(&self, doc: XmlDocument, cs: Seq<usize>) -> bool {
        &&& match last_of(doc, cs, Tag::ArticleIdList) {
            None => self.article_ids is None,
            Some(c) => self.article_ids is Some && self.article_ids->Some_0.decoded_from(
                doc,
                c as int,
            ),
        }
        &&& PubMedDate::all_decoded(
            self.history@,
            doc,
            with_year(doc, nested_items(doc, cs, Tag::History, Tag::PubMedPubDate)),
        )
        &&& Reference::all_decoded(
            self.references@,
            doc,
            nested_items(doc, cs, Tag::ReferenceList, Tag::Reference),
        )
        &&& opt_view(self.publication_status) == last_text(doc, cs, Tag::PublicationStatus)
    }

    pub open spec fn decoded_from(&self, doc: XmlDocument, i: int) -> bool {
        self.decoded_in(doc, doc.kids(i))
    }

    /// Decodes a `PubmedData` element; unrecognised children, here and in its
    /// parts, go to `diags`.
    #[verifier::rlimit(50)]
    pub fn new_from_xml(doc: &XmlDocument, i: usize, diags: &mut Vec<Diagnostic>) -> (r: Self)
        requires
            doc.wf(),
            i < doc.len(),
        ensures
            r.decoded_from(*doc, i as int),
            final(diags)@ == old(diags)@ + diagnostics_of(*doc, Entity::PubmedData, i as int),
    {
        let mut ret = PubmedData {
            article_ids: None,
            history: Vec::new(),
            references: Vec::new(),
            publication_status: None,
        };
        let ghost start = old(diags)@;
        let ghost d = *doc;
        let kids = &doc.nodes[i].children;
        let ghost cs = kids@;
        let mut k: usize = 0;
        while k < kids.len()
            invariant
                doc.wf(),
                i < doc.len(),
                kids == doc.nodes@[i as int].children,
                cs == kids@,
                d == *doc,
                k <= cs.len(),
                ret.decoded_in(d, cs.take(k as int)),
                diags@ == start + kids_diagnostics(d, Entity::PubmedData, i as int, cs.take(k as int)),
            decreases cs.len() - k,
        {
            let c = kids[k];
            let ghost prev = cs.take(k as int);
            proof {
                lemma_step(d, Entity::PubmedData, i as int, cs, k as int);
                assert(cs.take(k + 1).drop_last() =~= prev);
            }
            match doc.tag_of(c) {
                Tag::ReferenceList => add_references(
                    doc,
                    c,
                    &mut ret.references,
                    diags,
                    Ghost(nested_items(d, prev, Tag::ReferenceList, Tag::Reference)),
                ),
                Tag::ArticleIdList => {
                    ret.article_ids = Some(ArticleIdList::new_from_xml(doc, c, diags));
                },
                Tag::PublicationStatus => ret.publication_status = doc.text(c),
                Tag::History => add_history(
                    doc,
                    c,
                    &mut ret.history,
                    diags,
                    Ghost(nested_items(d, prev, Tag::History, Tag::PubMedPubDate)),
                ),
                Tag::NotElement => {},
                _ => diags.push(doc.make_diag(Entity::PubmedData, c, Severity::Unrecognized)),
            }
            assert(diags@ =~= start + kids_diagnostics(d, Entity::PubmedData, i as int, cs.take(k + 1)));
            k = k + 1;
        }
        assert(cs.take(cs.len() as int) =~= cs);
        ret
    }
}

/// One citation record: its MEDLINE part and its PubMed part.
#[derive(Debug, Clone, PartialEq)]
pub struct PubmedArticle {
    pub medline_citation: Option<MedlineCitation>,
    pub pubmed_data: Option<PubmedData>,
}

impl PubmedArticle {
    pub open spec fn decoded_from(&self, doc: XmlDocument, i: int) -> bool {
        let cs = doc.kids(i);
        &&& match last_of(doc, cs, Tag::MedlineCitation) {
            None => self.medline_citation is None,
            Some(c) => self.medline_citation is Some
                && self.medline_citation->Some_0.decoded_from(doc, c as int),
        }
        &&& match last_of(doc, cs, Tag::PubmedData) {
            None => self.pubmed_data is None,
            Some(c) => self.pubmed_data is Some && self.pubmed_data->Some_0.decoded_from(
                doc,
                c as int,
            ),
        }
    }

    pub open spec fn all_decoded(s: Seq<PubmedArticle>, doc: XmlDocument, ns: Seq<usize>) -> bool {
        &&& s.len() == ns.len()
        &&& forall|j: int| 0 <= j < s.len() ==> (#[trigger] s[j]).decoded_from(doc, ns[j] as int)
    }

    /// Decodes a `PubmedArticle` element; unrecognised children, here and in
    /// its parts, go to `diags`.
    pub fn new_from_xml(doc: &XmlDocument, i: usize, diags: &mut Vec<Diagnostic>) -> (r: Self)
        requires
            doc.wf(),
            i < doc.len(),
        ensures
            r.decoded_from(*doc, i as int),
            final(diags)@ == old(diags)@ + diagnostics_of(*doc, Entity::PubmedArticle, i as int),
    {
        let mut ret = PubmedArticle { medline_citation: None, pubmed_data: None };
        let ghost start = old(diags)@;
        let ghost d = *doc;
        let kids = &doc.nodes[i].children;
        let ghost cs = kids@;
        let mut k: usize = 0;
        while k < kids.len()
            invariant
                doc.wf(),
                i < doc.len(),
                kids == doc.nodes@[i as int].children,
                cs == kids@,
                d == *doc,
                k <= cs.len(),
                match last_of(d, cs.take(k as int), Tag::MedlineCitation) {
                    None => ret.medline_citation is None,
                    Some(c) => ret.medline_citation is Some
                        && ret.medline_citation->Some_0.decoded_from(d, c as int),
                },
                match last_of(d, cs.take(k as int), Tag::PubmedData) {
                    None => ret.pubmed_data is None,
                    Some(c) => ret.pubmed_data is Some && ret.pubmed_data->Some_0.decoded_from(
                        d,
                        c as int,
                    ),
                },
                diags@ == start + kids_diagnostics(
                    d,
                    Entity::PubmedArticle,
                    i as int,
                    cs.take(k as int),
                ),
            decreases cs.len() - k,
        {
            let c = kids[k];
            proof {
                lemma_step(d, Entity::PubmedArticle, i as int, cs, k as int);
            }
            match doc.tag_of(c) {
                Tag::MedlineCitation => {
                    ret.medline_citation = Some(MedlineCitation::new_from_xml(doc, c, diags));
                },
                Tag::PubmedData => ret.pubmed_data = Some(PubmedData::new_from_xml(doc, c, diags)),
                Tag::NotElement => {},
                _ => diags.push(doc.make_diag(Entity::PubmedArticle, c, Severity::Unrecognized)),
            }
            assert(diags@ =~= start + kids_diagnostics(
                d,
                Entity::PubmedArticle,
                i as int,
                cs.take(k + 1),
            ));
            k = k + 1;
        }
        assert(cs.take(cs.len() as int) =~= cs);
        ret
    }
}

/// What to do with a child element that its entity does not recognise.
#[derive(Debug, Clone, Copy, PartialEq, Eq)]
pub enum DecodeMode {
    /// Fail, naming the element and the entity it stood in.
    Strict,
    /// Skip it, and report it among the diagnostics.
    Permissive,
}

/// Why a document could not be decoded.
#[derive(Debug, Clone, PartialEq)]
pub enum DecodeError {
    /// The text is not well-formed XML; the message says where.
    MalformedXml(String),
    /// In strict mode, the first element that its entity does not recognise.
    UnrecognizedElement(Diagnostic),
    /// A batch requested for this identifier held no record.
    NotFound(u64),
}

/// The records of a document, with the diagnostics of permissive decoding.
#[derive(Debug, Clone, PartialEq)]
pub struct Decoded {
    pub articles: Vec<PubmedArticle>,
    pub diagnostics: Vec<Diagnostic>,
}

/// The record elements of a document: every `PubmedArticle` element in it,
/// in document order.
pub open spec fn record_nodes(doc: XmlDocument) -> Seq<usize> {
    of_tag(doc, subtree(doc, 0), Tag::PubmedArticle)
}

/// The first diagnostic of `ds` whose element was not recognised.
pub open spec fn first_unrecognized(ds: Seq<Diagnostic>) -> Option<Diagnostic>
    decreases ds.len(),
{
    if ds.len() == 0 {
        None
    } else if ds[0].severity is Unrecognized {
        Some(ds[0])
    } else {
        first_unrecognized(ds.skip(1))
    }
}

/// Whether `r` is the outcome of decoding `doc` in `mode`: one record per
/// record element, in order, with every skipped element reported; in strict
/// mode, the first unrecognised element instead, where there is one.
pub open spec fn decodes_document(
    doc: XmlDocument,
    mode: DecodeMode,
    r: Result<Decoded, DecodeError>,
) -> bool {
    let ds = diagnostics_of(doc, Entity::Document, 0);
    if mode is Strict && first_unrecognized(ds) is Some {
        r == Err::<Decoded, DecodeError>(
            DecodeError::UnrecognizedElement(first_unrecognized(ds)->Some_0),
        )
    } else {
        &&& r is Ok
        &&& PubmedArticle::all_decoded(r->Ok_0.articles@, doc, record_nodes(doc))
        &&& r->Ok_0.diagnostics@ == ds
    }
}

/// Finds the first diagnostic of `ds` whose element was not recognised.
fn find_unrecognized(ds: &Vec<Diagnostic>) -> (r: Option<Diagnostic>)
    ensures
        r == first_unrecognized(ds@),
{
    let mut k: usize = 0;
    assert(ds@.skip(0) =~= ds@);
    while k < ds.len()
        invariant
            k <= ds@.len(),
            first_unrecognized(ds@) == first_unrecognized(ds@.skip(k as int)),
        decreases ds@.len() - k,
    {
        assert(ds@.skip(k as int).skip(1) =~= ds@.skip(k + 1));
        if let Severity::Unrecognized = ds[k].severity {
            return Some(ds[k].copy());
        }
        k = k + 1;
    }
    None
}

/// Permissive decoding of a parsed document never fails.
pub proof fn permissive_decoding_succeeds(doc: XmlDocument, r: Result<Decoded, DecodeError>)
    requires
        decodes_document(doc, DecodeMode::Permissive, r),
    ensures
        r is Ok,
{
}

/// A document without record elements decodes to no records, and not to an
/// error, in permissive mode and in strict mode alike.
pub proof fn no_record_elements_no_records(
    doc: XmlDocument,
    mode: DecodeMode,
    r: Result<Decoded, DecodeError>,
)
    requires
        decodes_document(doc, mode, r),
        record_nodes(doc).len() == 0,
    ensures
        r is Ok,
        r->Ok_0.articles@.len() == 0,
        r->Ok_0.diagnostics@.len() == 0,
{
    assert(first_unrecognized(Seq::<Diagnostic>::empty()) is None);
}

impl Diagnostic {
    /// A copy of the diagnostic.
    pub fn copy(&self) -> (r: Diagnostic)
        ensures
            r == *self,
    {
        Diagnostic { entity: self.entity, tag: self.tag.clone(), severity: self.severity }
    }
}

/// Decodes every record of a parsed document.
pub fn articles_from_document(doc: &XmlDocument, mode: DecodeMode) -> (r: Result<
    Decoded,
    DecodeError,
>)
    requires
        doc.wf(),
        doc.len() > 0,
    ensures
        decodes_document(*doc, mode, r),
{
    let mut sub: Vec<usize> = Vec::new();
    collect_subtree(doc, 0, &mut sub);
    assert(sub@ =~= subtree(*doc, 0));
    let ghost d = *doc;
    let ghost ss = sub@;
    let mut articles: Vec<PubmedArticle> = Vec::new();
    let mut diags: Vec<Diagnostic> = Vec::new();
    let mut k: usize = 0;
    while k < sub.len()
        invariant
            doc.wf(),
            d == *doc,
            ss == sub@,
            ss == subtree(d, 0),
            forall|j: int| 0 <= j < ss.len() ==> 0 <= #[trigger] ss[j] < d.len(),
            k <= ss.len(),
            PubmedArticle::all_decoded(
                articles@,
                d,
                of_tag(d, ss.take(k as int), Tag::PubmedArticle),
            ),
            diags@ == items_diagnostics(
                d,
                Entity::Document,
                0,
                of_tag(d, ss.take(k as int), Tag::PubmedArticle),
            ),
        decreases ss.len() - k,
    {
        let c = sub[k];
        proof {
            lemma_of_tag_step(d, ss, k as int);
            lemma_items_push(
                d,
                Entity::Document,
                0,
                of_tag(d, ss.take(k as int), Tag::PubmedArticle),
                c,
            );
        }
        if let Tag::PubmedArticle = doc.tag_of(c) {
            articles.push(PubmedArticle::new_from_xml(doc, c, &mut diags));
        }
        k = k + 1;
    }
    assert(ss.take(ss.len() as int) =~= ss);
    if let DecodeMode::Strict = mode {
        if let Some(first) = find_unrecognized(&diags) {
            return Err(DecodeError::UnrecognizedElement(first));
        }
    }
    Ok(Decoded { articles, diagnostics: diags })
}

/// Parses `text` and decodes every record in it. Fails on text that is not
/// well-formed XML; otherwise the outcome is that of the parsed document.
pub fn articles_from_xml(text: &str, mode: DecodeMode) -> (r: Result<Decoded, DecodeError>)
    ensures
        parsed_nodes(text@) is None <==> r is Err && r->Err_0 is MalformedXml,
        parsed_nodes(text@) is Some ==> exists|doc: XmlDocument|
            doc.nodes@ == parsed_nodes(text@)->Some_0 && doc.wf() && #[trigger] decodes_document(
                doc,
                mode,
                r,
            ),
{
    match XmlDocument::parse(text) {
        Ok(doc) => {
            let r = articles_from_document(&doc, mode);
            assert(decodes_document(doc, mode, r));
            r
        },
        Err(message) => Err(DecodeError::MalformedXml(message)),
    }
}

/// The record that a request for the single identifier `id` gives: the last
/// record of the batch, or `NotFound` where the batch is empty.
pub fn last_article(mut articles: Vec<PubmedArticle>, id: u64) -> (r: Result<
    PubmedArticle,
    DecodeError,
>)
    ensures
        articles@.len() == 0 ==> r == Err::<PubmedArticle, DecodeError>(DecodeError::NotFound(id)),
        articles@.len() > 0 ==> r == Ok::<PubmedArticle, DecodeError>(articles@.last()),
{
    match articles.pop() {
        Some(a) => Ok(a),
        None => Err(DecodeError::NotFound(id)),
    }
}

} // verus!
