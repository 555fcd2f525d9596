//! The article of a citation: journal, authors, grants, abstract and the
//! smaller parts they are made of.
use crate::date::{lemma_with_year_push, with_year, PubMedDate};
use crate::dispatch::{
    collect_subtree, diagnostics_of, first_of, items_diagnostics, kids_diagnostics, last_of,
    known, last_text, lemma_items_push, lemma_nested_items_insert, lemma_of_tag_insert,
    lemma_of_tag_step, lemma_step, nested, nested_items, of_tag, subtree, Diagnostic, Entity,
    Severity, Tag,
};
use crate::xml::{opt_view, XmlDocument};
use vstd::prelude::*;

verus! {

/// A descriptor or qualifier of a MeSH heading.
#[derive(Debug, Clone, PartialEq)]
pub struct MeshTermPart {
    pub ui: Option<String>,
    pub major_topic: bool,
    pub name: Option<String>,
}

impl MeshTermPart {
    pub open spec fn decoded_from(&self, doc: XmlDocument, i: int) -> bool {
        &&& opt_view(self.ui) == doc.attr(i, "UI"@)
        &&& self.major_topic == doc.flag(i, "MajorTopicYN"@)
        &&& opt_view(self.name) == doc.text_of(i)
    }

    pub open spec fn all_decoded(s: Seq<MeshTermPart>, doc: XmlDocument, ns: Seq<usize>) -> bool {
        &&& s.len() == ns.len()
        &&& forall|j: int| 0 <= j < s.len() ==> (#[trigger] s[j]).decoded_from(doc, ns[j] as int)
    }

    /// Decodes a `DescriptorName` or `QualifierName` element.
    pub fn new_from_xml(doc: &XmlDocument, i: usize) -> (r: Self)
        requires
            i < doc.len(),
        ensures
            r.decoded_from(*doc, i as int),
    {
        MeshTermPart {
            ui: doc.attribute(i, "UI"),
            major_topic: doc.attribute_flag(i, "MajorTopicYN"),
            name: doc.text(i),
        }
    }
}

/// A MeSH heading: one descriptor and its qualifiers.
#[derive(Debug, Clone, PartialEq)]
pub struct MeshHeading {
    pub descriptor: MeshTermPart,
    pub qualifiers: Vec<MeshTermPart>,
}

impl MeshHeading {
    /// The first `DescriptorName` at or below node `i` is the descriptor; every
    /// `QualifierName` there is a qualifier, in document order. Without a
    /// descriptor there is no heading.
    pub open spec fn decodes(r: Option<MeshHeading>, doc: XmlDocument, i: int) -> bool {
        let sub = subtree(doc, i);
        match first_of(doc, sub, Tag::DescriptorName) {
            None => r is None,
            Some(c) => {
                &&& r is Some
                &&& r->Some_0.descriptor.decoded_from(doc, c as int)
                &&& MeshTermPart::all_decoded(
                    r->Some_0.qualifiers@,
                    doc,
                    of_tag(doc, sub, Tag::QualifierName),
                )
            },
        }
    }

    pub open spec fn all_decoded(s: Seq<MeshHeading>, doc: XmlDocument, ns: Seq<usize>) -> bool {
        &&& s.len() == ns.len()
        &&& forall|j: int|
            0 <= j < s.len() ==> Self::decodes(Some(#[trigger] s[j]), doc, ns[j] as int)
    }

    /// Decodes a `MeshHeading` element.
    pub fn new_from_xml(doc: &XmlDocument, i: usize) -> (r: Option<Self>)
        requires
            doc.wf(),
            i < doc.len(),
        ensures
            Self::decodes(r, *doc, i as int),
    {
        let mut sub: Vec<usize> = Vec::new();
        collect_subtree(doc, i, &mut sub);
        assert(sub@ =~= subtree(*doc, i as int));
        let ghost d = *doc;
        let ghost ss = sub@;
        let mut descriptor: Option<usize> = None;
        let mut qualifiers: Vec<MeshTermPart> = Vec::new();
        let mut k: usize = 0;
        while k < sub.len()
            invariant
                d == *doc,
                ss == sub@,
                ss == subtree(d, i as int),
                forall|j: int| 0 <= j < ss.len() ==> i <= #[trigger] ss[j] < d.len(),
                k <= ss.len(),
                descriptor == first_of(d, ss.take(k as int), Tag::DescriptorName),
                descriptor is Some ==> descriptor->Some_0 < d.len(),
                MeshTermPart::all_decoded(
                    qualifiers@,
                    d,
                    of_tag(d, ss.take(k as int), Tag::QualifierName),
                ),
            decreases ss.len() - k,
        {
            let c = sub[k];
            proof {
                lemma_of_tag_step(d, ss, k as int);
            }
            match doc.tag_of(c) {
                Tag::DescriptorName => {
                    if descriptor.is_none() {
                        descriptor = Some(c);
                    }
                },
                Tag::QualifierName => qualifiers.push(MeshTermPart::new_from_xml(doc, c)),
                _ => {},
            }
            k = k + 1;
        }
        assert(ss.take(ss.len() as int) =~= ss);
        match descriptor {
            Some(c) => Some(MeshHeading { descriptor: MeshTermPart::new_from_xml(doc, c), qualifiers }),
            None => None,
        }
    }
}

/// An electronic location of the article, such as a DOI.
#[derive(Debug, Clone, PartialEq)]
pub struct ELocationID {
    pub e_id_type: Option<String>,
    pub valid: bool,
    pub id: Option<String>,
}

impl ELocationID {
    pub open spec fn decoded_from(&self, doc: XmlDocument, i: int) -> bool {
        &&& opt_view(self.e_id_type) == doc.attr(i, "EIdType"@)
        &&& self.valid == doc.flag(i, "ValidYN"@)
        &&& opt_view(self.id) == doc.text_of(i)
    }

    pub open spec fn all_decoded(s: Seq<ELocationID>, doc: XmlDocument, ns: Seq<usize>) -> bool {
        &&& s.len() == ns.len()
        &&& forall|j: int| 0 <= j < s.len() ==> (#[trigger] s[j]).decoded_from(doc, ns[j] as int)
    }

    /// Decodes an `ELocationID` element.
    pub fn new_from_xml(doc: &XmlDocument, i: usize) -> (r: Self)
        requires
            i < doc.len(),
        ensures
            r.decoded_from(*doc, i as int),
    {
        ELocationID {
            e_id_type: doc.attribute(i, "EIdType"),
            valid: doc.attribute_flag(i, "ValidYN"),
            id: doc.text(i),
        }
    }
}

/// The abstract of an article. Only the first text block is kept.
#[derive(Debug, Clone, PartialEq)]
pub struct Abstract {
    pub text: Option<String>,
}

impl Abstract {
    /// The text of the first `AbstractText` at or below node `i`, empty where
    /// that element has no text; none where there is no such element.
    pub open spec fn decoded_from(&self, doc: XmlDocument, i: int) -> bool {
        match first_of(doc, subtree(doc, i), Tag::AbstractText) {
            None => self.text is None,
            Some(c) => opt_view(self.text) == Some(doc.text_or_empty(c as int)),
        }
    }

    /// Decodes an `Abstract` element.
    pub fn new_from_xml(doc: &XmlDocument, i: usize) -> (r: Self)
        requires
            doc.wf(),
            i < doc.len(),
        ensures
            r.decoded_from(*doc, i as int),
    {
        let mut sub: Vec<usize> = Vec::new();
        collect_subtree(doc, i, &mut sub);
        assert(sub@ =~= subtree(*doc, i as int));
        let ghost d = *doc;
        let ghost ss = sub@;
        let mut k: usize = 0;
        while k < sub.len()
            invariant
                d == *doc,
                ss == sub@,
                ss == subtree(d, i as int),
                forall|j: int| 0 <= j < ss.len() ==> i <= #[trigger] ss[j] < d.len(),
                k <= ss.len(),
                of_tag(d, ss.take(k as int), Tag::AbstractText).len() == 0,
            decreases ss.len() - k,
        {
            let c = sub[k];
            proof {
                lemma_of_tag_step(d, ss, k as int);
            }
            if let Tag::AbstractText = doc.tag_of(c) {
                proof {
                    lemma_first_stays(d, ss, k as int + 1, Tag::AbstractText);
                }
                return Abstract { text: Some(doc.text_or_empty_string(c)) };
            }
            k = k + 1;
        }
        assert(ss.take(ss.len() as int) =~= ss);
        Abstract { text: None }
    }
}

/// Once a prefix of `cs` holds a node with tag `t`, the first such node of the
/// prefix is the first of all of `cs`.
pub proof fn lemma_first_stays(doc: XmlDocument, cs: Seq<usize>, k: int, t: Tag)
    requires
        0 <= k <= cs.len(),
        of_tag(doc, cs.take(k), t).len() > 0,
    ensures
        first_of(doc, cs, t) == first_of(doc, cs.take(k), t),
    decreases cs.len() - k,
{
    if k < cs.len() {
        lemma_of_tag_step(doc, cs, k);
        lemma_first_stays(doc, cs, k + 1, t);
    } else {
        assert(cs.take(k) =~= cs);
    }
}

/// An identifier of an author or affiliation, with the scheme it belongs to.
#[derive(Debug, Clone, PartialEq)]
pub struct Identifier {
    pub id: Option<String>,
    pub source: Option<String>,
}

impl Identifier {
    pub open spec fn decoded_from(&self, doc: XmlDocument, i: int) -> bool {
        &&& opt_view(self.id) == doc.text_of(i)
        &&& opt_view(self.source) == doc.attr(i, "Source"@)
    }

    pub open spec fn all_decoded(s: Seq<Identifier>, doc: XmlDocument, ns: Seq<usize>) -> bool {
        &&& s.len() == ns.len()
        &&& forall|j: int| 0 <= j < s.len() ==> (#[trigger] s[j]).decoded_from(doc, ns[j] as int)
    }

    /// Decodes an `Identifier` element.
    pub fn new_from_xml(doc: &XmlDocument, i: usize) -> (r: Self)
        requires
            i < doc.len(),
        ensures
            r.decoded_from(*doc, i as int),
    {
        Identifier { id: doc.text(i), source: doc.attribute(i, "Source") }
    }
}

/// The affiliation of an author.
#[derive(Debug, Clone, PartialEq)]
pub struct AffiliationInfo {
    pub affiliation: Option<String>,
    pub identifiers: Vec<Identifier>,
}

impl AffiliationInfo {
    pub open spec fn decoded_from(&self, doc: XmlDocument, i: int) -> bool {
        let cs = doc.kids(i);
        &&& opt_view(self.affiliation) == last_text(doc, cs, Tag::Affiliation)
        &&& Identifier::all_decoded(self.identifiers@, doc, of_tag(doc, cs, Tag::Identifier))
    }

    /// Decodes an `AffiliationInfo` element; unrecognised children go to `diags`.
    pub fn new_from_xml(doc: &XmlDocument, i: usize, diags: &mut Vec<Diagnostic>) -> (r: Self)
        requires
            doc.wf(),
            i < doc.len(),
        ensures
            r.decoded_from(*doc, i as int),
            final(diags)@ == old(diags)@ + diagnostics_of(*doc, Entity::AffiliationInfo, i as int),
    {
        let mut ret = AffiliationInfo { affiliation: None, identifiers: Vec::new() };
        let ghost start = old(diags)@;
        let ghost d = *doc;
        let kids = &doc.nodes[i].children;
        let ghost cs = kids@;
        let mut k: usize = 0;
        while k < kids.len()
            invariant
                doc.wf(),
                i < doc.len(),
                kids == doc.nodes@[i as int].children,
                cs == kids@,
                d == *doc,
                k <= cs.len(),
                opt_view(ret.affiliation) == last_text(d, cs.take(k as int), Tag::Affiliation),
                Identifier::all_decoded(
                    ret.identifiers@,
                    d,
                    of_tag(d, cs.take(k as int), Tag::Identifier),
                ),
                diags@ == start + kids_diagnostics(
                    d,
                    Entity::AffiliationInfo,
                    i as int,
                    cs.take(k as int),
                ),
            decreases cs.len() - k,
        {
            let c = kids[k];
            proof {
                lemma_step(d, Entity::AffiliationInfo, i as int, cs, k as int);
            }
            match doc.tag_of(c) {
                Tag::Affiliation => ret.affiliation = doc.text(c),
                Tag::Identifier => ret.identifiers.push(Identifier::new_from_xml(doc, c)),
                Tag::NotElement => {},
                _ => diags.push(doc.make_diag(Entity::AffiliationInfo, c, Severity::Unrecognized)),
            }
            assert(diags@ =~= start + kids_diagnostics(
                d,
                Entity::AffiliationInfo,
                i as int,
                cs.take(k + 1),
            ));
            k = k + 1;
        }
        assert(cs.take(cs.len() as int) =~= cs);
        ret
    }
}

/// An author: a person or a collective, with affiliation and identifiers.
#[derive(Debug, Clone, PartialEq)]
pub struct Author {
    pub last_name: Option<String>,
    pub fore_name: Option<String>,
    pub initials: Option<String>,
    pub suffix: Option<String>,
    pub collective_name: Option<String>,
    pub affiliation_info: Option<AffiliationInfo>,
    pub identifiers: Vec<Identifier>,
    pub valid: bool,
}

impl Author {
    pub open spec fn decoded_from(&self, doc: XmlDocument, i: int) -> bool {
        let cs = doc.kids(i);
        &&& opt_view(self.last_name) == last_text(doc, cs, Tag::LastName)
        &&& opt_view(self.fore_name) == last_text(doc, cs, Tag::ForeName)
        &&& opt_view(self.initials) == last_text(doc, cs, Tag::Initials)
        &&& opt_view(self.suffix) == last_text(doc, cs, Tag::Suffix)
        &&& opt_view(self.collective_name) == last_text(doc, cs, Tag::CollectiveName)
        &&& match last_of(doc, cs, Tag::AffiliationInfo) {
            None => self.affiliation_info is None,
            Some(c) => self.affiliation_info is Some
                && self.affiliation_info->Some_0.decoded_from(doc, c as int),
        }
        &&& Identifier::all_decoded(self.identifiers@, doc, of_tag(doc, cs, Tag::Identifier))
        &&& self.valid == doc.flag(i, "ValidYN"@)
    }

    pub open spec fn all_decoded(s: Seq<Author>, doc: XmlDocument, ns: Seq<usize>) -> bool {
        &&& s.len() == ns.len()
        &&& forall|j: int| 0 <= j < s.len() ==> (#[trigger] s[j]).decoded_from(doc, ns[j] as int)
    }

    /// Decodes an `Author` or `Investigator` element; unrecognised children go
    /// to `diags`.
    pub fn new_from_xml(doc: &XmlDocument, i: usize, diags: &mut Vec<Diagnostic>) -> (r: Self)
        requires
            doc.wf(),
            i < doc.len(),
        ensures
            r.decoded_from(*doc, i as int),
            final(diags)@ == old(diags)@ + diagnostics_of(*doc, Entity::Author, i as int),
    {
        let mut ret = Author {
            last_name: None,
            fore_name: None,
            initials: None,
            suffix: None,
            collective_name: None,
            affiliation_info: None,
            identifiers: Vec::new(),
            valid: doc.attribute_flag(i, "ValidYN"),
        };
        let ghost start = old(diags)@;
        let ghost d = *doc;
        let kids = &doc.nodes[i].children;
        let ghost cs = kids@;
        let mut k: usize = 0;
        while k < kids.len()
            invariant
                doc.wf(),
                i < doc.len(),
                kids == doc.nodes@[i as int].children,
                cs == kids@,
                d == *doc,
                k <= cs.len(),
                opt_view(ret.last_name) == last_text(d, cs.take(k as int), Tag::LastName),
                opt_view(ret.fore_name) == last_text(d, cs.take(k as int), Tag::ForeName),
                opt_view(ret.initials) == last_text(d, cs.take(k as int), Tag::Initials),
                opt_view(ret.suffix) == last_text(d, cs.take(k as int), Tag::Suffix),
                opt_view(ret.collective_name) == last_text(
                    d,
                    cs.take(k as int),
                    Tag::CollectiveName,
                ),
                match last_of(d, cs.take(k as int), Tag::AffiliationInfo) {
                    None => ret.affiliation_info is None,
                    Some(c) => ret.affiliation_info is Some
                        && ret.affiliation_info->Some_0.decoded_from(d, c as int),
                },
                Identifier::all_decoded(
                    ret.identifiers@,
                    d,
                    of_tag(d, cs.take(k as int), Tag::Identifier),
                ),
                ret.valid == d.flag(i as int, "ValidYN"@),
                diags@ == start + kids_diagnostics(d, Entity::Author, i as int, cs.take(k as int)),
            decreases cs.len() - k,
        {
            let c = kids[k];
            proof {
                lemma_step(d, Entity::Author, i as int, cs, k as int);
            }
            match doc.tag_of(c) {
                Tag::LastName => ret.last_name = doc.text(c),
                Tag::ForeName => ret.fore_name = doc.text(c),
                Tag::CollectiveName => ret.collective_name = doc.text(c),
                Tag::Initials => ret.initials = doc.text(c),
                Tag::Suffix => ret.suffix = doc.text(c),
                Tag::Identifier => ret.identifiers.push(Identifier::new_from_xml(doc, c)),
                Tag::AffiliationInfo => {
                    ret.affiliation_info = Some(AffiliationInfo::new_from_xml(doc, c, diags));
                },
                Tag::NotElement => {},
                _ => diags.push(doc.make_diag(Entity::Author, c, Severity::Unrecognized)),
            }
            assert(diags@ =~= start + kids_diagnostics(d, Entity::Author, i as int, cs.take(k + 1)));
            k = k + 1;
        }
        assert(cs.take(cs.len() as int) =~= cs);
        ret
    }
}

/// The authors of an article, and whether the list is complete.
#[derive(Debug, Clone, PartialEq)]
pub struct AuthorList {
    pub authors: Vec<Author>,
    pub complete: bool,
}

impl AuthorList {
    /// Every `Author` element at or below node `i`, in document order.
    pub open spec fn decoded_from(&self, doc: XmlDocument, i: int) -> bool {
        &&& self.complete == doc.flag(i, "CompleteYN"@)
        &&& Author::all_decoded(self.authors@, doc, of_tag(doc, subtree(doc, i), Tag::Author))
    }

    /// Decodes an `AuthorList` element; unrecognised children of its authors
    /// go to `diags`.
    pub fn new_from_xml(doc: &XmlDocument, i: usize, diags: &mut Vec<Diagnostic>) -> (r: Self)
        requires
            doc.wf(),
            i < doc.len(),
        ensures
            r.decoded_from(*doc, i as int),
            final(diags)@ == old(diags)@ + diagnostics_of(*doc, Entity::AuthorList, i as int),
    {
        let mut sub: Vec<usize> = Vec::new();
        collect_subtree(doc, i, &mut sub);
        assert(sub@ =~= subtree(*doc, i as int));
        let ghost start = old(diags)@;
        let ghost d = *doc;
        let ghost ss = sub@;
        let mut authors: Vec<Author> = Vec::new();
        let mut k: usize = 0;
        while k < sub.len()
            invariant
                doc.wf(),
                d == *doc,
                ss == sub@,
                ss == subtree(d, i as int),
                forall|j: int| 0 <= j < ss.len() ==> i <= #[trigger] ss[j] < d.len(),
                k <= ss.len(),
                Author::all_decoded(authors@, d, of_tag(d, ss.take(k as int), Tag::Author)),
                diags@ == start + items_diagnostics(
                    d,
                    Entity::AuthorList,
                    i as int,
                    of_tag(d, ss.take(k as int), Tag::Author),
                ),
            decreases ss.len() - k,
        {
            let c = sub[k];
            proof {
                lemma_of_tag_step(d, ss, k as int);
                lemma_items_push(
                    d,
                    Entity::AuthorList,
                    i as int,
                    of_tag(d, ss.take(k as int), Tag::Author),
                    c,
                );
            }
            if let Tag::Author = doc.tag_of(c) {
                authors.push(Author::new_from_xml(doc, c, diags));
                assert(diags@ =~= start + items_diagnostics(
                    d,
                    Entity::AuthorList,
                    i as int,
                    of_tag(d, ss.take(k + 1), Tag::Author),
                ));
            }
            k = k + 1;
        }
        assert(ss.take(ss.len() as int) =~= ss);
        AuthorList { authors, complete: doc.attribute_flag(i, "CompleteYN") }
    }
}

/// The issue of a journal in which an article appeared.
#[derive(Debug, Clone, PartialEq)]
pub struct JournalIssue {
    pub cited_medium: Option<String>,
    pub volume: Option<String>,
    pub issue: Option<String>,
    pub pub_date: Option<PubMedDate>,
}

impl JournalIssue {
    /// An issue with nothing known.
    pub fn new() -> (r: Self)
        ensures
            r.cited_medium is None,
            r.volume is None,
            r.issue is None,
            r.pub_date is None,
    {
        JournalIssue { cited_medium: None, volume: None, issue: None, pub_date: None }
    }

    pub open spec fn decoded_from(&self, doc: XmlDocument, i: int) -> bool {
        let cs = doc.kids(i);
        &&& opt_view(self.cited_medium) == doc.attr(i, "CitedMedium"@)
        &&& opt_view(self.volume) == last_text(doc, cs, Tag::Volume)
        &&& opt_view(self.issue) == last_text(doc, cs, Tag::Issue)
        &&& match last_of(doc, cs, Tag::PubDate) {
            None => self.pub_date is None,
            Some(c) => PubMedDate::decodes(self.pub_date, doc, c as int),
        }
    }

    /// Decodes a `JournalIssue` element; unrecognised children go to `diags`.
    pub fn new_from_xml(doc: &XmlDocument, i: usize, diags: &mut Vec<Diagnostic>) -> (r: Self)
        requires
            doc.wf(),
            i < doc.len(),
        ensures
            r.decoded_from(*doc, i as int),
            final(diags)@ == old(diags)@ + diagnostics_of(*doc, Entity::JournalIssue, i as int),
    {
        let mut ret = Self::new();
        ret.cited_medium = doc.attribute(i, "CitedMedium");
        let ghost start = old(diags)@;
        let ghost d = *doc;
        let kids = &doc.nodes[i].children;
        let ghost cs = kids@;
        let mut k: usize = 0;
        while k < kids.len()
            invariant
                doc.wf(),
                i < doc.len(),
                kids == doc.nodes@[i as int].children,
                cs == kids@,
                d == *doc,
                k <= cs.len(),
                opt_view(ret.cited_medium) == d.attr(i as int, "CitedMedium"@),
                opt_view(ret.volume) == last_text(d, cs.take(k as int), Tag::Volume),
                opt_view(ret.issue) == last_text(d, cs.take(k as int), Tag::Issue),
                match last_of(d, cs.take(k as int), Tag::PubDate) {
                    None => ret.pub_date is None,
                    Some(c) => PubMedDate::decodes(ret.pub_date, d, c as int),
                },
                diags@ == start + kids_diagnostics(
                    d,
                    Entity::JournalIssue,
                    i as int,
                    cs.take(k as int),
                ),
            decreases cs.len() - k,
        {
            let c = kids[k];
            proof {
                lemma_step(d, Entity::JournalIssue, i as int, cs, k as int);
            }
            match doc.tag_of(c) {
                Tag::PubDate => ret.pub_date = PubMedDate::new_from_xml(doc, c, diags),
                Tag::Volume => ret.volume = doc.text(c),
                Tag::Issue => ret.issue = doc.text(c),
                Tag::NotElement => {},
                _ => diags.push(doc.make_diag(Entity::JournalIssue, c, Severity::Unrecognized)),
            }
            assert(diags@ =~= start + kids_diagnostics(
                d,
                Entity::JournalIssue,
                i as int,
                cs.take(k + 1),
            ));
            k = k + 1;
        }
        assert(cs.take(cs.len() as int) =~= cs);
        ret
    }
}

/// The journal in which an article appeared.
#[derive(Debug, Clone, PartialEq)]
pub struct Journal {
    pub issn: Option<String>,
    pub issn_type: Option<String>,
    pub journal_issue: Option<JournalIssue>,
    pub title: Option<String>,
    pub iso_abbreviation: Option<String>,
}

impl Journal {
    /// A journal with nothing known.
    pub fn new() -> (r: Self)
        ensures
            r.issn is None,
            r.issn_type is None,
            r.journal_issue is None,
            r.title is None,
            r.iso_abbreviation is None,
    {
        Journal { issn: None, issn_type: None, journal_issue: None, title: None, iso_abbreviation: None }
    }

    /// The last `ISSN` child gives both the number and its type.
    pub open spec fn decoded_from(&self, doc: XmlDocument, i: int) -> bool {
        let cs = doc.kids(i);
        &&& match last_of(doc, cs, Tag::Issn) {
            None => self.issn is None && self.issn_type is None,
            Some(c) => opt_view(self.issn) == doc.text_of(c as int) && opt_view(self.issn_type)
                == doc.attr(c as int, "IssnType"@),
        }
        &&& match last_of(doc, cs, Tag::JournalIssue) {
            None => self.journal_issue is None,
            Some(c) => self.journal_issue is Some
                && self.journal_issue->Some_0.decoded_from(doc, c as int),
        }
        &&& opt_view(self.title) == last_text(doc, cs, Tag::Title)
        &&& opt_view(self.iso_abbreviation) == last_text(doc, cs, Tag::IsoAbbreviation)
    }

    /// Decodes a `Journal` element; unrecognised children go to `diags`.
    pub fn new_from_xml(doc: &XmlDocument, i: usize, diags: &mut Vec<Diagnostic>) -> (r: Self)
        requires
            doc.wf(),
            i < doc.len(),
        ensures
            r.decoded_from(*doc, i as int),
            final(diags)@ == old(diags)@ + diagnostics_of(*doc, Entity::Journal, i as int),
    {
        let mut ret = Self::new();
        let ghost start = old(diags)@;
        let ghost d = *doc;
        let kids = &doc.nodes[i].children;
        let ghost cs = kids@;
        let mut k: usize = 0;
        while k < kids.len()
            invariant
                doc.wf(),
                i < doc.len(),
                kids == doc.nodes@[i as int].children,
                cs == kids@,
                d == *doc,
                k <= cs.len(),
                match last_of(d, cs.take(k as int), Tag::Issn) {
                    None => ret.issn is None && ret.issn_type is None,
                    Some(c) => opt_view(ret.issn) == d.text_of(c as int) && opt_view(ret.issn_type)
                        == d.attr(c as int, "IssnType"@),
                },
                match last_of(d, cs.take(k as int), Tag::JournalIssue) {
                    None => ret.journal_issue is None,
                    Some(c) => ret.journal_issue is Some
                        && ret.journal_issue->Some_0.decoded_from(d, c as int),
                },
                opt_view(ret.title) == last_text(d, cs.take(k as int), Tag::Title),
                opt_view(ret.iso_abbreviation) == last_text(
                    d,
                    cs.take(k as int),
                    Tag::IsoAbbreviation,
                ),
                diags@ == start + kids_diagnostics(d, Entity::Journal, i as int, cs.take(k as int)),
            decreases cs.len() - k,
        {
            let c = kids[k];
            proof {
                lemma_step(d, Entity::Journal, i as int, cs, k as int);
            }
            match doc.tag_of(c) {
                Tag::Issn => {
                    ret.issn = doc.text(c);
                    ret.issn_type = doc.attribute(c, "IssnType");
                },
                Tag::JournalIssue => {
                    ret.journal_issue = Some(JournalIssue::new_from_xml(doc, c, diags));
                },
                Tag::Title => ret.title = doc.text(c),
                Tag::IsoAbbreviation => ret.iso_abbreviation = doc.text(c),
                Tag::NotElement => {},
                _ => diags.push(doc.make_diag(Entity::Journal, c, Severity::Unrecognized)),
            }
            assert(diags@ =~= start + kids_diagnostics(d, Entity::Journal, i as int, cs.take(k + 1)));
            k = k + 1;
        }
        assert(cs.take(cs.len() as int) =~= cs);
        ret
    }
}

/// A page range of an article.
#[derive(Debug, Clone, PartialEq)]
pub enum Pagination {
    MedlinePgn(String),
}

impl Pagination {
    /// A `MedlinePgn` element gives its text, empty where it has none.
    pub open spec fn decoded_from(&self, doc: XmlDocument, i: int) -> bool {
        match self {
            Pagination::MedlinePgn(s) => s@ == doc.text_or_empty(i),
        }
    }

    pub open spec fn all_decoded(s: Seq<Pagination>, doc: XmlDocument, ns: Seq<usize>) -> bool {
        &&& s.len() == ns.len()
        &&& forall|j: int| 0 <= j < s.len() ==> (#[trigger] s[j]).decoded_from(doc, ns[j] as int)
    }
}

/// Appends the pages of `Pagination` element `i` to `out`.
fn add_pages(
    doc: &XmlDocument,
    i: usize,
    out: &mut Vec<Pagination>,
    diags: &mut Vec<Diagnostic>,
    Ghost(ns): Ghost<Seq<usize>>,
)
    requires
        doc.wf(),
        i < doc.len(),
        Pagination::all_decoded(old(out)@, *doc, ns),
    ensures
        Pagination::all_decoded(
            final(out)@,
            *doc,
            ns + of_tag(*doc, doc.kids(i as int), Tag::MedlinePgn),
        ),
        final(diags)@ == old(diags)@ + diagnostics_of(*doc, Entity::Pagination, i as int),
{
    let ghost start = old(diags)@;
    let ghost d = *doc;
    let kids = &doc.nodes[i].children;
    let ghost cs = kids@;
    let mut k: usize = 0;
    while k < kids.len()
        invariant
            doc.wf(),
            i < doc.len(),
            kids == doc.nodes@[i as int].children,
            cs == kids@,
            d == *doc,
            k <= cs.len(),
            Pagination::all_decoded(out@, d, ns + of_tag(d, cs.take(k as int), Tag::MedlinePgn)),
            diags@ == start + kids_diagnostics(d, Entity::Pagination, i as int, cs.take(k as int)),
        decreases cs.len() - k,
    {
        let c = kids[k];
        proof {
            lemma_step(d, Entity::Pagination, i as int, cs, k as int);
            assert(ns + of_tag(d, cs.take(k as int), Tag::MedlinePgn).push(c) =~= (ns + of_tag(
                d,
                cs.take(k as int),
                Tag::MedlinePgn,
            )).push(c));
        }
        match doc.tag_of(c) {
            Tag::MedlinePgn => out.push(Pagination::MedlinePgn(doc.text_or_empty_string(c))),
            Tag::NotElement => {},
            _ => diags.push(doc.make_diag(Entity::Pagination, c, Severity::Unrecognized)),
        }
        assert(diags@ =~= start + kids_diagnostics(d, Entity::Pagination, i as int, cs.take(k + 1)));
        k = k + 1;
    }
    assert(cs.take(cs.len() as int) =~= cs);
}

/// A grant that funded the work.
#[derive(Debug, Clone, PartialEq)]
pub struct Grant {
    pub grant_id: Option<String>,
    pub agency: Option<String>,
    pub country: Option<String>,
    pub acronym: Option<String>,
}

impl Grant {
    pub open spec fn decoded_from(&self, doc: XmlDocument, i: int) -> bool {
        let cs = doc.kids(i);
        &&& opt_view(self.grant_id) == last_text(doc, cs, Tag::GrantId)
        &&& opt_view(self.agency) == last_text(doc, cs, Tag::Agency)
        &&& opt_view(self.country) == last_text(doc, cs, Tag::Country)
        &&& opt_view(self.acronym) == last_text(doc, cs, Tag::Acronym)
    }

    pub open spec fn all_decoded(s: Seq<Grant>, doc: XmlDocument, ns: Seq<usize>) -> bool {
        &&& s.len() == ns.len()
        &&& forall|j: int| 0 <= j < s.len() ==> (#[trigger] s[j]).decoded_from(doc, ns[j] as int)
    }

    /// Decodes a `Grant` element; unrecognised children go to `diags`.
    pub fn new_from_xml(doc: &XmlDocument, i: usize, diags: &mut Vec<Diagnostic>) -> (r: Self)
        requires
            doc.wf(),
            i < doc.len(),
        ensures
            r.decoded_from(*doc, i as int),
            final(diags)@ == old(diags)@ + diagnostics_of(*doc, Entity::Grant, i as int),
    {
        let mut ret = Grant { grant_id: None, agency: None, country: None, acronym: None };
        let ghost start = old(diags)@;
        let ghost d = *doc;
        let kids = &doc.nodes[i].children;
        let ghost cs = kids@;
        let mut k: usize = 0;
        while k < kids.len()
            invariant
                doc.wf(),
                i < doc.len(),
                kids == doc.nodes@[i as int].children,
                cs == kids@,
                d == *doc,
                k <= cs.len(),
                opt_view(ret.grant_id) == last_text(d, cs.take(k as int), Tag::GrantId),
                opt_view(ret.agency) == last_text(d, cs.take(k as int), Tag::Agency),
                opt_view(ret.country) == last_text(d, cs.take(k as int), Tag::Country),
                opt_view(ret.acronym) == last_text(d, cs.take(k as int), Tag::Acronym),
                diags@ == start + kids_diagnostics(d, Entity::Grant, i as int, cs.take(k as int)),
            decreases cs.len() - k,
        {
            let c = kids[k];
            proof {
                lemma_step(d, Entity::Grant, i as int, cs, k as int);
            }
            match doc.tag_of(c) {
                Tag::GrantId => ret.grant_id = doc.text(c),
                Tag::Agency => ret.agency = doc.text(c),
                Tag::Country => ret.country = doc.text(c),
                Tag::Acronym => ret.acronym = doc.text(c),
                Tag::NotElement => {},
                _ => diags.push(doc.make_diag(Entity::Grant, c, Severity::Unrecognized)),
            }
            assert(diags@ =~= start + kids_diagnostics(d, Entity::Grant, i as int, cs.take(k + 1)));
            k = k + 1;
        }
        assert(cs.take(cs.len() as int) =~= cs);
        ret
    }
}

/// The grants of an article, and whether the list is complete.
#[derive(Debug, Clone, PartialEq)]
pub struct GrantList {
    pub grants: Vec<Grant>,
    pub complete: bool,
}

impl GrantList {
    /// Every `Grant` element at or below node `i`, in document order.
    pub open spec fn decoded_from(&self, doc: XmlDocument, i: int) -> bool {
        &&& self.complete == doc.flag(i, "CompleteYN"@)
        &&& Grant::all_decoded(self.grants@, doc, of_tag(doc, subtree(doc, i), Tag::Grant))
    }

    /// Decodes a `GrantList` element; unrecognised children of its grants go
    /// to `diags`.
    pub fn new_from_xml(doc: &XmlDocument, i: usize, diags: &mut Vec<Diagnostic>) -> (r: Self)
        requires
            doc.wf(),
            i < doc.len(),
        ensures
            r.decoded_from(*doc, i as int),
            final(diags)@ == old(diags)@ + diagnostics_of(*doc, Entity::GrantList, i as int),
    {
        let mut sub: Vec<usize> = Vec::new();
        collect_subtree(doc, i, &mut sub);
        assert(sub@ =~= subtree(*doc, i as int));
        let ghost start = old(diags)@;
        let ghost d = *doc;
        let ghost ss = sub@;
        let mut grants: Vec<Grant> = Vec::new();
        let mut k: usize = 0;
        while k < sub.len()
            invariant
                doc.wf(),
                d == *doc,
                ss == sub@,
                ss == subtree(d, i as int),
                forall|j: int| 0 <= j < ss.len() ==> i <= #[trigger] ss[j] < d.len(),
                k <= ss.len(),
                Grant::all_decoded(grants@, d, of_tag(d, ss.take(k as int), Tag::Grant)),
                diags@ == start + items_diagnostics(
                    d,
                    Entity::GrantList,
                    i as int,
                    of_tag(d, ss.take(k as int), Tag::Grant),
                ),
            decreases ss.len() - k,
        {
            let c = sub[k];
            proof {
                lemma_of_tag_step(d, ss, k as int);
                lemma_items_push(
                    d,
                    Entity::GrantList,
                    i as int,
                    of_tag(d, ss.take(k as int), Tag::Grant),
                    c,
                );
            }
            if let Tag::Grant = doc.tag_of(c) {
                grants.push(Grant::new_from_xml(doc, c, diags));
                assert(diags@ =~= start + items_diagnostics(
                    d,
                    Entity::GrantList,
                    i as int,
                    of_tag(d, ss.take(k + 1), Tag::Grant),
                ));
            }
            k = k + 1;
        }
        assert(ss.take(ss.len() as int) =~= ss);
        GrantList { grants, complete: doc.attribute_flag(i, "CompleteYN") }
    }
}

/// A publication type of an article, such as "Journal Article".
#[derive(Debug, Clone, PartialEq)]
pub struct PublicationType {
    pub ui: Option<String>,
    pub name: Option<String>,
}

impl PublicationType {
    pub open spec fn decoded_from(&self, doc: XmlDocument, i: int) -> bool {
        &&& opt_view(self.ui) == doc.attr(i, "UI"@)
        &&& opt_view(self.name) == doc.text_of(i)
    }

    pub open spec fn all_decoded(s: Seq<PublicationType>, doc: XmlDocument, ns: Seq<usize>) -> bool {
        &&& s.len() == ns.len()
        &&& forall|j: int| 0 <= j < s.len() ==> (#[trigger] s[j]).decoded_from(doc, ns[j] as int)
    }

    /// Decodes a `PublicationType` element.
    pub fn new_from_xml(doc: &XmlDocument, i: usize) -> (r: Self)
        requires
            i < doc.len(),
        ensures
            r.decoded_from(*doc, i as int),
    {
        PublicationType { ui: doc.attribute(i, "UI"), name: doc.text(i) }
    }
}

/// The `PublicationType` children of `PublicationTypeList` element `i`.
fn publication_types(doc: &XmlDocument, i: usize) -> (r: Vec<PublicationType>)
    requires
        doc.wf(),
        i < doc.len(),
    ensures
        PublicationType::all_decoded(r@, *doc, of_tag(*doc, doc.kids(i as int), Tag::PublicationType)),
{
    let ghost d = *doc;
    let kids = &doc.nodes[i].children;
    let ghost cs = kids@;
    let mut out: Vec<PublicationType> = Vec::new();
    let mut k: usize = 0;
    while k < kids.len()
        invariant
            doc.wf(),
            i < doc.len(),
            kids == doc.nodes@[i as int].children,
            cs == kids@,
            d == *doc,
            k <= cs.len(),
            PublicationType::all_decoded(out@, d, of_tag(d, cs.take(k as int), Tag::PublicationType)),
        decreases cs.len() - k,
    {
        let c = kids[k];
        proof {
            lemma_of_tag_step(d, cs, k as int);
        }
        if let Tag::PublicationType = doc.tag_of(c) {
            out.push(PublicationType::new_from_xml(doc, c));
        }
        k = k + 1;
    }
    assert(cs.take(cs.len() as int) =~= cs);
    out
}

/// A journal article: its bibliographic data, authors and grants.
#[derive(Debug, Clone, PartialEq)]
pub struct Article {
    pub pub_model: Option<String>,
    pub journal: Option<Journal>,
    pub title: Option<String>,
    pub pagination: Vec<Pagination>,
    pub e_location_ids: Vec<ELocationID>,
    pub the_abstract: Option<Abstract>,
    pub author_list: Option<AuthorList>,
    pub language: Option<String>,
    pub vernacular_title: Option<String>,
    pub grant_list: Option<GrantList>,
    pub publication_type_list: Vec<PublicationType>,
    pub article_date: Vec<PubMedDate>,
}

impl Article {
    /// An article with nothing known.
    pub fn new() -> (r: Self)
        ensures
            r.pub_model is None,
            r.journal is None,
            r.title is None,
            r.pagination@.len() == 0,
            r.e_location_ids@.len() == 0,
            r.the_abstract is None,
            r.author_list is None,
            r.language is None,
            r.vernacular_title is None,
            r.grant_list is None,
            r.publication_type_list@.len() == 0,
            r.article_date@.len() == 0,
    {
        Article {
            pub_model: None,
            journal: None,
            title: None,
            pagination: Vec::new(),
            e_location_ids: Vec::new(),
            the_abstract: None,
            author_list: None,
            language: None,
            vernacular_title: None,
            grant_list: None,
            publication_type_list: Vec::new(),
            article_date: Vec::new(),
        }
    }

    /// What the children `cs` of article element `i` give. Scalars and single
    /// parts come from the last element of their name; pages, locations and
    /// dates accumulate; the last `PublicationTypeList` gives the types.
    pub open spec fn decoded_in(&self, doc: XmlDocument, i: int, cs: Seq<usize>) -> bool {
        &&& opt_view(self.pub_model) == doc.attr(i, "PubModel"@)
        &&& opt_view(self.title) == last_text(doc, cs, Tag::ArticleTitle)
        &&& match last_of(doc, cs, Tag::Journal) {
            None => self.journal is None,
            Some(c) => self.journal is Some && self.journal->Some_0.decoded_from(doc, c as int),
        }
        &&& Pagination::all_decoded(self.pagination@, doc, nested_items(doc, cs, Tag::Pagination, Tag::MedlinePgn))
        &&& ELocationID::all_decoded(self.e_location_ids@, doc, of_tag(doc, cs, Tag::ElocationId))
        &&& match last_of(doc, cs, Tag::Abstract) {
            None => self.the_abstract is None,
            Some(c) => self.the_abstract is Some && self.the_abstract->Some_0.decoded_from(
                doc,
                c as int,
            ),
        }
        &&& match last_of(doc, cs, Tag::AuthorList) {
            None => self.author_list is None,
            Some(c) => self.author_list is Some && self.author_list->Some_0.decoded_from(
                doc,
                c as int,
            ),
        }
        &&& opt_view(self.language) == last_text(doc, cs, Tag::Language)
        &&& opt_view(self.vernacular_title) == last_text(doc, cs, Tag::VernacularTitle)
        &&& match last_of(doc, cs, Tag::GrantList) {
            None => self.grant_list is None,
            Some(c) => self.grant_list is Some && self.grant_list->Some_0.decoded_from(
                doc,
                c as int,
            ),
        }
        &&& match last_of(doc, cs, Tag::PublicationTypeList) {
            None => self.publication_type_list@.len() == 0,
            Some(c) => PublicationType::all_decoded(
                self.publication_type_list@,
                doc,
                of_tag(doc, doc.kids(c as int), Tag::PublicationType),
            ),
        }
        &&& PubMedDate::all_decoded(
            self.article_date@,
            doc,
            with_year(doc, of_tag(doc, cs, Tag::ArticleDate)),
        )
    }

    pub open spec fn decoded_from(&self, doc: XmlDocument, i: int) -> bool {
        self.decoded_in(doc, i, doc.kids(i))
    }

    /// Decodes an `Article` element; unrecognised children, here and in its
    /// parts, go to `diags`.
    #[verifier::rlimit(60)]
    pub fn new_from_xml(doc: &XmlDocument, i: usize, diags: &mut Vec<Diagnostic>) -> (r: Self)
        requires
            doc.wf(),
            i < doc.len(),
        ensures
            r.decoded_from(*doc, i as int),
            final(diags)@ == old(diags)@ + diagnostics_of(*doc, Entity::Article, i as int),
    {
        let mut ret = Article::new();
        ret.pub_model = doc.attribute(i, "PubModel");
        let ghost start = old(diags)@;
        let ghost d = *doc;
        let kids = &doc.nodes[i].children;
        let ghost cs = kids@;
        let mut k: usize = 0;
        while k < kids.len()
            invariant
                doc.wf(),
                i < doc.len(),
                kids == doc.nodes@[i as int].children,
                cs == kids@,
                d == *doc,
                k <= cs.len(),
                ret.decoded_in(d, i as int, cs.take(k as int)),
                diags@ == start + kids_diagnostics(d, Entity::Article, i as int, cs.take(k as int)),
            decreases cs.len() - k,
        {
            let c = kids[k];
            let ghost prev = cs.take(k as int);
            proof {
                lemma_step(d, Entity::Article, i as int, cs, k as int);
                assert(cs.take(k + 1).drop_last() =~= prev);
                lemma_with_year_push(d, of_tag(d, prev, Tag::ArticleDate), c);
            }
            match doc.tag_of(c) {
                Tag::ArticleTitle => ret.title = doc.text(c),
                Tag::Journal => ret.journal = Some(Journal::new_from_xml(doc, c, diags)),
                Tag::Pagination => {
                    add_pages(doc, c, &mut ret.pagination, diags, Ghost(nested_items(d, prev, Tag::Pagination, Tag::MedlinePgn)));
                },
                Tag::ElocationId => ret.e_location_ids.push(ELocationID::new_from_xml(doc, c)),
                Tag::Abstract => ret.the_abstract = Some(Abstract::new_from_xml(doc, c)),
                Tag::AuthorList => {
                    ret.author_list = Some(AuthorList::new_from_xml(doc, c, diags));
                },
                Tag::Language => ret.language = doc.text(c),
                Tag::VernacularTitle => ret.vernacular_title = doc.text(c),
                Tag::GrantList => ret.grant_list = Some(GrantList::new_from_xml(doc, c, diags)),
                Tag::ArticleDate => {
                    if let Some(date) = PubMedDate::new_from_xml(doc, c, diags) {
                        ret.article_date.push(date);
                    }
                },
                Tag::PublicationTypeList => ret.publication_type_list = publication_types(doc, c),
                Tag::DataBankList => {
                    diags.push(doc.make_diag(Entity::Article, c, Severity::Unsupported));
                },
                Tag::NotElement => {},
                _ => diags.push(doc.make_diag(Entity::Article, c, Severity::Unrecognized)),
            }
            assert(diags@ =~= start + kids_diagnostics(d, Entity::Article, i as int, cs.take(k + 1)));
            k = k + 1;
        }
        assert(cs.take(cs.len() as int) =~= cs);
        ret
    }
}

/// An element that the article decoder does not read changes nothing it
/// decodes: an article is what children `cs` of article element `i` give
/// exactly when it is what they give with element `u` inserted anywhere.
pub proof fn unread_child_changes_nothing(
    a: Article,
    doc: XmlDocument,
    i: int,
    cs: Seq<usize>,
    p: int,
    u: usize,
)
    requires
        0 <= p <= cs.len(),
        !known(Entity::Article, doc.tag(u as int)),
        nested(Entity::Article, doc.tag(u as int)) is None,
    ensures
        a.decoded_in(doc, i, cs.insert(p, u)) == a.decoded_in(doc, i, cs),
{
    lemma_of_tag_insert(doc, cs, p, u, Tag::ArticleTitle);
    lemma_of_tag_insert(doc, cs, p, u, Tag::Journal);
    lemma_of_tag_insert(doc, cs, p, u, Tag::ElocationId);
    lemma_of_tag_insert(doc, cs, p, u, Tag::Abstract);
    lemma_of_tag_insert(doc, cs, p, u, Tag::AuthorList);
    lemma_of_tag_insert(doc, cs, p, u, Tag::Language);
    lemma_of_tag_insert(doc, cs, p, u, Tag::VernacularTitle);
    lemma_of_tag_insert(doc, cs, p, u, Tag::GrantList);
    lemma_of_tag_insert(doc, cs, p, u, Tag::PublicationTypeList);
    lemma_of_tag_insert(doc, cs, p, u, Tag::ArticleDate);
    lemma_nested_items_insert(doc, cs, p, u, Tag::Pagination, Tag::MedlinePgn);
}

} // verus!
