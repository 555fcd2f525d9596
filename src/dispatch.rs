//! Routing of an element's children by tag name, and the record of children
//! that no decoder recognises.
use crate::xml::{str_eq, XmlDocument};
use vstd::prelude::*;

verus! {

/// The element names that some decoder recognises, and two more kinds: any
/// other name, and a node that is not an element.
#[derive(Debug, Clone, Copy, PartialEq, Eq)]
pub enum Tag {
    MedlineDate,
    Year,
    Month,
    Day,
    Hour,
    Minute,
    Season,
    DescriptorName,
    QualifierName,
    MeshHeading,
    MeshHeadingList,
    AbstractText,
    Affiliation,
    Identifier,
    LastName,
    ForeName,
    CollectiveName,
    Initials,
    Suffix,
    AffiliationInfo,
    Author,
    AuthorList,
    PubDate,
    Volume,
    Issue,
    Issn,
    JournalIssue,
    Title,
    IsoAbbreviation,
    GrantId,
    Agency,
    Country,
    Acronym,
    Grant,
    GrantList,
    MedlinePgn,
    ArticleTitle,
    Journal,
    Pagination,
    ElocationId,
    Abstract,
    Language,
    VernacularTitle,
    ArticleDate,
    PublicationTypeList,
    PublicationType,
    DataBankList,
    MedlineTa,
    NlmUniqueId,
    IssnLinking,
    Keyword,
    KeywordList,
    RegistryNumber,
    NameOfSubstance,
    Chemical,
    ChemicalList,
    Investigator,
    InvestigatorList,
    GeneSymbol,
    GeneSymbolList,
    Pmid,
    CoiStatement,
    NumberOfReferences,
    OtherId,
    CitationSubset,
    DateCompleted,
    DateRevised,
    Article,
    MedlineJournalInfo,
    PersonalNameSubjectList,
    GeneralNote,
    OtherAbstract,
    SupplMeshList,
    CommentsCorrectionsList,
    ArticleId,
    ArticleIdList,
    Citation,
    Reference,
    ReferenceList,
    PublicationStatus,
    History,
    PubMedPubDate,
    MedlineCitation,
    PubmedData,
    PubmedArticle,
    Other,
    NotElement,
}

/// The tag that an element name stands for; names are matched exactly.
pub open spec fn tag_named(n: Seq<char>) -> Tag {
    if n == "MedlineDate"@ {
        Tag::MedlineDate
    } else if n == "Year"@ {
        Tag::Year
    } else if n == "Month"@ {
        Tag::Month
    } else if n == "Day"@ {
        Tag::Day
    } else if n == "Hour"@ {
        Tag::Hour
    } else if n == "Minute"@ {
        Tag::Minute
    } else if n == "Season"@ {
        Tag::Season
    } else if n == "DescriptorName"@ {
        Tag::DescriptorName
    } else if n == "QualifierName"@ {
        Tag::QualifierName
    } else if n == "MeshHeading"@ {
        Tag::MeshHeading
    } else if n == "MeshHeadingList"@ {
        Tag::MeshHeadingList
    } else if n == "AbstractText"@ {
        Tag::AbstractText
    } else if n == "Affiliation"@ {
        Tag::Affiliation
    } else if n == "Identifier"@ {
        Tag::Identifier
    } else if n == "LastName"@ {
        Tag::LastName
    } else if n == "ForeName"@ {
        Tag::ForeName
    } else if n == "CollectiveName"@ {
        Tag::CollectiveName
    } else if n == "Initials"@ {
        Tag::Initials
    } else if n == "Suffix"@ {
        Tag::Suffix
    } else if n == "AffiliationInfo"@ {
        Tag::AffiliationInfo
    } else if n == "Author"@ {
        Tag::Author
    } else if n == "AuthorList"@ {
        Tag::AuthorList
    } else if n == "PubDate"@ {
        Tag::PubDate
    } else if n == "Volume"@ {
        Tag::Volume
    } else if n == "Issue"@ {
        Tag::Issue
    } else if n == "ISSN"@ {
        Tag::Issn
    } else if n == "JournalIssue"@ {
        Tag::JournalIssue
    } else if n == "Title"@ {
        Tag::Title
    } else if n == "ISOAbbreviation"@ {
        Tag::IsoAbbreviation
    } else if n == "GrantID"@ {
        Tag::GrantId
    } else if n == "Agency"@ {
        Tag::Agency
    } else if n == "Country"@ {
        Tag::Country
    } else if n == "Acronym"@ {
        Tag::Acronym
    } else if n == "Grant"@ {
        Tag::Grant
    } else if n == "GrantList"@ {
        Tag::GrantList
    } else if n == "MedlinePgn"@ {
        Tag::MedlinePgn
    } else if n == "ArticleTitle"@ {
        Tag::ArticleTitle
    } else if n == "Journal"@ {
        Tag::Journal
    } else if n == "Pagination"@ {
        Tag::Pagination
    } else if n == "ELocationID"@ {
        Tag::ElocationId
    } else if n == "Abstract"@ {
        Tag::Abstract
    } else if n == "Language"@ {
        Tag::Language
    } else if n == "VernacularTitle"@ {
        Tag::VernacularTitle
    } else if n == "ArticleDate"@ {
        Tag::ArticleDate
    } else if n == "PublicationTypeList"@ {
        Tag::PublicationTypeList
    } else if n == "PublicationType"@ {
        Tag::PublicationType
    } else if n == "DataBankList"@ {
        Tag::DataBankList
    } else if n == "MedlineTA"@ {
        Tag::MedlineTa
    } else if n == "NlmUniqueID"@ {
        Tag::NlmUniqueId
    } else if n == "ISSNLinking"@ {
        Tag::IssnLinking
    } else if n == "Keyword"@ {
        Tag::Keyword
    } else if n == "KeywordList"@ {
        Tag::KeywordList
    } else if n == "RegistryNumber"@ {
        Tag::RegistryNumber
    } else if n == "NameOfSubstance"@ {
        Tag::NameOfSubstance
    } else if n == "Chemical"@ {
        Tag::Chemical
    } else if n == "ChemicalList"@ {
        Tag::ChemicalList
    } else if n == "Investigator"@ {
        Tag::Investigator
    } else if n == "InvestigatorList"@ {
        Tag::InvestigatorList
    } else if n == "GeneSymbol"@ {
        Tag::GeneSymbol
    } else if n == "GeneSymbolList"@ {
        Tag::GeneSymbolList
    } else if n == "PMID"@ {
        Tag::Pmid
    } else if n == "CoiStatement"@ {
        Tag::CoiStatement
    } else if n == "NumberOfReferences"@ {
        Tag::NumberOfReferences
    } else if n == "OtherID"@ {
        Tag::OtherId
    } else if n == "CitationSubset"@ {
        Tag::CitationSubset
    } else if n == "DateCompleted"@ {
        Tag::DateCompleted
    } else if n == "DateRevised"@ {
        Tag::DateRevised
    } else if n == "Article"@ {
        Tag::Article
    } else if n == "MedlineJournalInfo"@ {
        Tag::MedlineJournalInfo
    } else if n == "PersonalNameSubjectList"@ {
        Tag::PersonalNameSubjectList
    } else if n == "GeneralNote"@ {
        Tag::GeneralNote
    } else if n == "OtherAbstract"@ {
        Tag::OtherAbstract
    } else if n == "SupplMeshList"@ {
        Tag::SupplMeshList
    } else if n == "CommentsCorrectionsList"@ {
        Tag::CommentsCorrectionsList
    } else if n == "ArticleId"@ {
        Tag::ArticleId
    } else if n == "ArticleIdList"@ {
        Tag::ArticleIdList
    } else if n == "Citation"@ {
        Tag::Citation
    } else if n == "Reference"@ {
        Tag::Reference
    } else if n == "ReferenceList"@ {
        Tag::ReferenceList
    } else if n == "PublicationStatus"@ {
        Tag::PublicationStatus
    } else if n == "History"@ {
        Tag::History
    } else if n == "PubMedPubDate"@ {
        Tag::PubMedPubDate
    } else if n == "MedlineCitation"@ {
        Tag::MedlineCitation
    } else if n == "PubmedData"@ {
        Tag::PubmedData
    } else if n == "PubmedArticle"@ {
        Tag::PubmedArticle
    } else {
        Tag::Other
    }
}

/// Classifies an element name.
pub fn classify(n: &str) -> (r: Tag)
    ensures
        r == tag_named(n@),
{
    if str_eq(n, "MedlineDate") {
        Tag::MedlineDate
    } else if str_eq(n, "Year") {
        Tag::Year
    } else if str_eq(n, "Month") {
        Tag::Month
    } else if str_eq(n, "Day") {
        Tag::Day
    } else if str_eq(n, "Hour") {
        Tag::Hour
    } else if str_eq(n, "Minute") {
        Tag::Minute
    } else if str_eq(n, "Season") {
        Tag::Season
    } else if str_eq(n, "DescriptorName") {
        Tag::DescriptorName
    } else if str_eq(n, "QualifierName") {
        Tag::QualifierName
    } else if str_eq(n, "MeshHeading") {
        Tag::MeshHeading
    } else if str_eq(n, "MeshHeadingList") {
        Tag::MeshHeadingList
    } else if str_eq(n, "AbstractText") {
        Tag::AbstractText
    } else if str_eq(n, "Affiliation") {
        Tag::Affiliation
    } else if str_eq(n, "Identifier") {
        Tag::Identifier
    } else if str_eq(n, "LastName") {
        Tag::LastName
    } else if str_eq(n, "ForeName") {
        Tag::ForeName
    } else if str_eq(n, "CollectiveName") {
        Tag::CollectiveName
    } else if str_eq(n, "Initials") {
        Tag::Initials
    } else if str_eq(n, "Suffix") {
        Tag::Suffix
    } else if str_eq(n, "AffiliationInfo") {
        Tag::AffiliationInfo
    } else if str_eq(n, "Author") {
        Tag::Author
    } else if str_eq(n, "AuthorList") {
        Tag::AuthorList
    } else if str_eq(n, "PubDate") {
        Tag::PubDate
    } else if str_eq(n, "Volume") {
        Tag::Volume
    } else if str_eq(n, "Issue") {
        Tag::Issue
    } else if str_eq(n, "ISSN") {
        Tag::Issn
    } else if str_eq(n, "JournalIssue") {
        Tag::JournalIssue
    } else if str_eq(n, "Title") {
        Tag::Title
    } else if str_eq(n, "ISOAbbreviation") {
        Tag::IsoAbbreviation
    } else if str_eq(n, "GrantID") {
        Tag::GrantId
    } else if str_eq(n, "Agency") {
        Tag::Agency
    } else if str_eq(n, "Country") {
        Tag::Country
    } else if str_eq(n, "Acronym") {
        Tag::Acronym
    } else if str_eq(n, "Grant") {
        Tag::Grant
    } else if str_eq(n, "GrantList") {
        Tag::GrantList
    } else if str_eq(n, "MedlinePgn") {
        Tag::MedlinePgn
    } else if str_eq(n, "ArticleTitle") {
        Tag::ArticleTitle
    } else if str_eq(n, "Journal") {
        Tag::Journal
    } else if str_eq(n, "Pagination") {
        Tag::Pagination
    } else if str_eq(n, "ELocationID") {
        Tag::ElocationId
    } else if str_eq(n, "Abstract") {
        Tag::Abstract
    } else if str_eq(n, "Language") {
        Tag::Language
    } else if str_eq(n, "VernacularTitle") {
        Tag::VernacularTitle
    } else if str_eq(n, "ArticleDate") {
        Tag::ArticleDate
    } else if str_eq(n, "PublicationTypeList") {
        Tag::PublicationTypeList
    } else if str_eq(n, "PublicationType") {
        Tag::PublicationType
    } else if str_eq(n, "DataBankList") {
        Tag::DataBankList
    } else if str_eq(n, "MedlineTA") {
        Tag::MedlineTa
    } else if str_eq(n, "NlmUniqueID") {
        Tag::NlmUniqueId
    } else if str_eq(n, "ISSNLinking") {
        Tag::IssnLinking
    } else if str_eq(n, "Keyword") {
        Tag::Keyword
    } else if str_eq(n, "KeywordList") {
        Tag::KeywordList
    } else if str_eq(n, "RegistryNumber") {
        Tag::RegistryNumber
    } else if str_eq(n, "NameOfSubstance") {
        Tag::NameOfSubstance
    } else if str_eq(n, "Chemical") {
        Tag::Chemical
    } else if str_eq(n, "ChemicalList") {
        Tag::ChemicalList
    } else if str_eq(n, "Investigator") {
        Tag::Investigator
    } else if str_eq(n, "InvestigatorList") {
        Tag::InvestigatorList
    } else if str_eq(n, "GeneSymbol") {
        Tag::GeneSymbol
    } else if str_eq(n, "GeneSymbolList") {
        Tag::GeneSymbolList
    } else if str_eq(n, "PMID") {
        Tag::Pmid
    } else if str_eq(n, "CoiStatement") {
        Tag::CoiStatement
    } else if str_eq(n, "NumberOfReferences") {
        Tag::NumberOfReferences
    } else if str_eq(n, "OtherID") {
        Tag::OtherId
    } else if str_eq(n, "CitationSubset") {
        Tag::CitationSubset
    } else if str_eq(n, "DateCompleted") {
        Tag::DateCompleted
    } else if str_eq(n, "DateRevised") {
        Tag::DateRevised
    } else if str_eq(n, "Article") {
        Tag::Article
    } else if str_eq(n, "MedlineJournalInfo") {
        Tag::MedlineJournalInfo
    } else if str_eq(n, "PersonalNameSubjectList") {
        Tag::PersonalNameSubjectList
    } else if str_eq(n, "GeneralNote") {
        Tag::GeneralNote
    } else if str_eq(n, "OtherAbstract") {
        Tag::OtherAbstract
    } else if str_eq(n, "SupplMeshList") {
        Tag::SupplMeshList
    } else if str_eq(n, "CommentsCorrectionsList") {
        Tag::CommentsCorrectionsList
    } else if str_eq(n, "ArticleId") {
        Tag::ArticleId
    } else if str_eq(n, "ArticleIdList") {
        Tag::ArticleIdList
    } else if str_eq(n, "Citation") {
        Tag::Citation
    } else if str_eq(n, "Reference") {
        Tag::Reference
    } else if str_eq(n, "ReferenceList") {
        Tag::ReferenceList
    } else if str_eq(n, "PublicationStatus") {
        Tag::PublicationStatus
    } else if str_eq(n, "History") {
        Tag::History
    } else if str_eq(n, "PubMedPubDate") {
        Tag::PubMedPubDate
    } else if str_eq(n, "MedlineCitation") {
        Tag::MedlineCitation
    } else if str_eq(n, "PubmedData") {
        Tag::PubmedData
    } else if str_eq(n, "PubmedArticle") {
        Tag::PubmedArticle
    } else {
        Tag::Other
    }
}

/// The entities whose decoders route children by tag; a diagnostic names the
/// one in which an unrecognised child stood.
#[derive(Debug, Clone, Copy, PartialEq, Eq)]
pub enum Entity {
    PubMedDate,
    AffiliationInfo,
    Author,
    AuthorList,
    JournalIssue,
    Journal,
    Grant,
    GrantList,
    Pagination,
    Article,
    MedlineJournalInfo,
    KeywordList,
    Chemical,
    ChemicalList,
    InvestigatorList,
    GeneSymbolList,
    MedlineCitation,
    ArticleIdList,
    Reference,
    ReferenceList,
    History,
    PubmedData,
    PubmedArticle,
    Document,
}

/// How a diagnostic's element was treated.
#[derive(Debug, Clone, Copy, PartialEq, Eq)]
pub enum Severity {
    /// The entity's decoder does not know the element.
    Unrecognized,
    /// The element is known but deliberately not decoded, such as a free-text
    /// or season date; it is reported and never fatal.
    Unsupported,
}

/// A child element that its entity's decoder skipped.
#[derive(Debug, Clone, PartialEq)]
pub struct Diagnostic {
    pub entity: Entity,
    pub tag: String,
    pub severity: Severity,
}

impl XmlDocument {
    /// The tag of node `c`: `NotElement` for anything but an element.
    pub open spec fn tag(&self, c: int) -> Tag {
        if self.nodes@[c].is_element {
            tag_named(self.nodes@[c].name@)
        } else {
            Tag::NotElement
        }
    }

    /// Classifies node `c`.
    pub fn tag_of(&self, c: usize) -> (r: Tag)
        requires
            c < self.len(),
        ensures
            r == self.tag(c as int),
    {
        if self.nodes[c].is_element {
            classify(self.nodes[c].name.as_str())
        } else {
            Tag::NotElement
        }
    }

    /// The diagnostic for child `c` of an entity `e`.
    pub open spec fn diag(&self, e: Entity, c: int, s: Severity) -> Diagnostic {
        Diagnostic { entity: e, tag: self.nodes@[c].name, severity: s }
    }

    pub fn make_diag(&self, e: Entity, c: usize, s: Severity) -> (r: Diagnostic)
        requires
            c < self.len(),
        ensures
            r == self.diag(e, c as int, s),
    {
        Diagnostic { entity: e, tag: self.nodes[c].name.clone(), severity: s }
    }
}

/// The entity that decodes a child with tag `t` of entity `e`, where the
/// child is itself routed by tag.
pub open spec fn nested(e: Entity, t: Tag) -> Option<Entity> {
    match (e, t) {
        (Entity::Author, Tag::AffiliationInfo) => Some(Entity::AffiliationInfo),
        (Entity::JournalIssue, Tag::PubDate) => Some(Entity::PubMedDate),
        (Entity::Journal, Tag::JournalIssue) => Some(Entity::JournalIssue),
        (Entity::Article, Tag::Journal) => Some(Entity::Journal),
        (Entity::Article, Tag::Pagination) => Some(Entity::Pagination),
        (Entity::Article, Tag::AuthorList) => Some(Entity::AuthorList),
        (Entity::Article, Tag::GrantList) => Some(Entity::GrantList),
        (Entity::Article, Tag::ArticleDate) => Some(Entity::PubMedDate),
        (Entity::ChemicalList, Tag::Chemical) => Some(Entity::Chemical),
        (Entity::InvestigatorList, Tag::Investigator) => Some(Entity::Author),
        (Entity::MedlineCitation, Tag::KeywordList) => Some(Entity::KeywordList),
        (Entity::MedlineCitation, Tag::ChemicalList) => Some(Entity::ChemicalList),
        (Entity::MedlineCitation, Tag::GeneSymbolList) => Some(Entity::GeneSymbolList),
        (Entity::MedlineCitation, Tag::InvestigatorList) => Some(Entity::InvestigatorList),
        (Entity::MedlineCitation, Tag::DateCompleted) => Some(Entity::PubMedDate),
        (Entity::MedlineCitation, Tag::DateRevised) => Some(Entity::PubMedDate),
        (Entity::MedlineCitation, Tag::Article) => Some(Entity::Article),
        (Entity::MedlineCitation, Tag::MedlineJournalInfo) => Some(Entity::MedlineJournalInfo),
        (Entity::Reference, Tag::ArticleIdList) => Some(Entity::ArticleIdList),
        (Entity::ReferenceList, Tag::Reference) => Some(Entity::Reference),
        (Entity::History, Tag::PubMedPubDate) => Some(Entity::PubMedDate),
        (Entity::PubmedData, Tag::ReferenceList) => Some(Entity::ReferenceList),
        (Entity::PubmedData, Tag::ArticleIdList) => Some(Entity::ArticleIdList),
        (Entity::PubmedData, Tag::History) => Some(Entity::History),
        (Entity::PubmedArticle, Tag::MedlineCitation) => Some(Entity::MedlineCitation),
        (Entity::PubmedArticle, Tag::PubmedData) => Some(Entity::PubmedData),
        _ => None,
    }
}

/// The tags that entity `e` recognises and decodes without routing further.
pub open spec fn known(e: Entity, t: Tag) -> bool {
    match e {
        Entity::PubMedDate => t == Tag::Year || t == Tag::Month || t == Tag::Day || t == Tag::Hour
            || t == Tag::Minute,
        Entity::AffiliationInfo => t == Tag::Affiliation || t == Tag::Identifier,
        Entity::Author => t == Tag::LastName || t == Tag::ForeName || t == Tag::CollectiveName
            || t == Tag::Initials || t == Tag::Suffix || t == Tag::Identifier,
        Entity::JournalIssue => t == Tag::Volume || t == Tag::Issue,
        Entity::Journal => t == Tag::Issn || t == Tag::Title || t == Tag::IsoAbbreviation,
        Entity::Grant => t == Tag::GrantId || t == Tag::Agency || t == Tag::Country || t
            == Tag::Acronym,
        Entity::Pagination => t == Tag::MedlinePgn,
        Entity::Article => t == Tag::ArticleTitle || t == Tag::ElocationId || t == Tag::Abstract
            || t == Tag::Language || t == Tag::VernacularTitle || t == Tag::PublicationTypeList,
        Entity::MedlineJournalInfo => t == Tag::Country || t == Tag::MedlineTa || t
            == Tag::NlmUniqueId || t == Tag::IssnLinking,
        Entity::KeywordList => t == Tag::Keyword,
        Entity::Chemical => t == Tag::RegistryNumber || t == Tag::NameOfSubstance,
        Entity::GeneSymbolList => t == Tag::GeneSymbol,
        Entity::MedlineCitation => t == Tag::Pmid || t == Tag::CoiStatement || t
            == Tag::NumberOfReferences || t == Tag::OtherId || t == Tag::CitationSubset || t
            == Tag::MeshHeadingList,
        Entity::ArticleIdList => t == Tag::ArticleId,
        Entity::Reference => t == Tag::Citation,
        Entity::PubmedData => t == Tag::PublicationStatus,
        _ => false,
    }
}

/// The tags that entity `e` knows but does not decode: free-text and season
/// dates, data bank lists, and the citation parts left unread. Each is reported
/// as an unsupported element.
pub open spec fn unsupported(e: Entity, t: Tag) -> bool {
    match e {
        Entity::PubMedDate => t == Tag::MedlineDate || t == Tag::Season,
        Entity::Article => t == Tag::DataBankList,
        Entity::MedlineCitation => t == Tag::PersonalNameSubjectList || t == Tag::GeneralNote
            || t == Tag::OtherAbstract || t == Tag::SupplMeshList || t
            == Tag::CommentsCorrectionsList,
        _ => false,
    }
}

/// For the entities that gather their items from anywhere below them, the
/// items' tag and entity.
pub open spec fn gathers(e: Entity) -> Option<(Tag, Entity)> {
    match e {
        Entity::AuthorList => Some((Tag::Author, Entity::Author)),
        Entity::GrantList => Some((Tag::Grant, Entity::Grant)),
        Entity::Document => Some((Tag::PubmedArticle, Entity::PubmedArticle)),
        _ => None,
    }
}

/// Orders an entity that gathers items above the items' entity, for the one
/// case where an item is the gathering node itself.
pub open spec fn rank(e: Entity) -> int {
    if gathers(e) is Some {
        1
    } else {
        0
    }
}

/// The nodes among `cs` that carry tag `t`, in order.
pub open spec fn of_tag(doc: XmlDocument, cs: Seq<usize>, t: Tag) -> Seq<usize>
    decreases cs.len(),
{
    if cs.len() == 0 {
        Seq::empty()
    } else {
        let rest = of_tag(doc, cs.drop_last(), t);
        if doc.tag(cs.last() as int) == t {
            rest.push(cs.last())
        } else {
            rest
        }
    }
}

/// The last node among `cs` with tag `t`.
pub open spec fn last_of(doc: XmlDocument, cs: Seq<usize>, t: Tag) -> Option<usize> {
    let s = of_tag(doc, cs, t);
    if s.len() == 0 {
        None
    } else {
        Some(s.last())
    }
}

/// The first node among `cs` with tag `t`.
pub open spec fn first_of(doc: XmlDocument, cs: Seq<usize>, t: Tag) -> Option<usize> {
    let s = of_tag(doc, cs, t);
    if s.len() == 0 {
        None
    } else {
        Some(s[0])
    }
}

/// The text of the last node among `cs` with tag `t`: where a scalar element
/// repeats, the last occurrence wins.
pub open spec fn last_text(doc: XmlDocument, cs: Seq<usize>, t: Tag) -> Option<Seq<char>> {
    match last_of(doc, cs, t) {
        Some(c) => doc.text_of(c as int),
        None => None,
    }
}

/// Node `i` followed by the nodes below it, in document order.
pub open spec fn subtree(doc: XmlDocument, i: int) -> Seq<usize>
    decreases doc.len() - i, doc.kids(i).len() + 1,
{
    if 0 <= i < doc.len() {
        seq![i as usize] + subtrees(doc, i, doc.kids(i).len() as int)
    } else {
        Seq::empty()
    }
}

/// The subtrees of the first `k` children of node `i`, one after another.
pub open spec fn subtrees(doc: XmlDocument, i: int, k: int) -> Seq<usize>
    decreases doc.len() - i, k,
{
    if !(0 <= i < doc.len()) || k <= 0 || k > doc.kids(i).len() {
        Seq::empty()
    } else {
        let c = doc.kids(i)[k - 1] as int;
        subtrees(doc, i, k - 1) + if i < c < doc.len() {
            subtree(doc, c)
        } else {
            Seq::empty()
        }
    }
}

/// The diagnostics of the decoder of entity `e` on node `i`, in the order in
/// which the decoder meets the elements it skips.
pub open spec fn diagnostics_of(doc: XmlDocument, e: Entity, i: int) -> Seq<Diagnostic>
    decreases doc.len() - i, rank(e), 1int, 0int,
{
    if !(0 <= i < doc.len()) {
        Seq::empty()
    } else {
        match gathers(e) {
            Some((t, item)) => items_diagnostics(doc, e, i, of_tag(doc, subtree(doc, i), t)),
            None => kids_diagnostics(doc, e, i, doc.kids(i)),
        }
    }
}

/// The diagnostics of entity `e` on node `i` from its children `cs`.
pub open spec fn kids_diagnostics(doc: XmlDocument, e: Entity, i: int, cs: Seq<usize>) -> Seq<
    Diagnostic,
>
    decreases doc.len() - i, rank(e), 0int, cs.len(),
{
    if cs.len() == 0 {
        Seq::empty()
    } else {
        kids_diagnostics(doc, e, i, cs.drop_last()) + child_diagnostics(doc, e, i, cs.last() as int)
    }
}

/// The diagnostics that child `c` of node `i` gives to entity `e`.
pub open spec fn child_diagnostics(doc: XmlDocument, e: Entity, i: int, c: int) -> Seq<Diagnostic>
    decreases doc.len() - i, rank(e), 0int, 0int,
{
    if !(0 <= i < c < doc.len()) {
        Seq::empty()
    } else {
        match nested(e, doc.tag(c)) {
            Some(e2) => diagnostics_of(doc, e2, c),
            None => if doc.tag(c) == Tag::NotElement || known(e, doc.tag(c)) {
                Seq::empty()
            } else if unsupported(e, doc.tag(c)) {
                seq![doc.diag(e, c, Severity::Unsupported)]
            } else {
                seq![doc.diag(e, c, Severity::Unrecognized)]
            },
        }
    }
}

/// The diagnostics of the items `ds` that entity `e` gathers below node `i`.
pub open spec fn items_diagnostics(doc: XmlDocument, e: Entity, i: int, ds: Seq<usize>) -> Seq<
    Diagnostic,
>
    decreases doc.len() - i, rank(e), 0int, ds.len(),
{
    if ds.len() == 0 {
        Seq::empty()
    } else {
        let d = ds.last() as int;
        items_diagnostics(doc, e, i, ds.drop_last()) + match gathers(e) {
            Some((t, item)) => if i <= d < doc.len() {
                diagnostics_of(doc, item, d)
            } else {
                Seq::empty()
            },
            None => Seq::empty(),
        }
    }
}

/// The children with tag `inner` of the elements with tag `outer` among `cs`,
/// in order: the items of list elements that may repeat.
pub open spec fn nested_items(doc: XmlDocument, cs: Seq<usize>, outer: Tag, inner: Tag) -> Seq<
    usize,
>
    decreases cs.len(),
{
    if cs.len() == 0 {
        Seq::empty()
    } else {
        let c = cs.last() as int;
        nested_items(doc, cs.drop_last(), outer, inner) + if doc.tag(c) == outer && 0 <= c
            < doc.len() {
            of_tag(doc, doc.kids(c), inner)
        } else {
            Seq::empty()
        }
    }
}

/// A scalar or list field is unset or empty where its element is absent.
pub proof fn absent_element_gives_nothing(doc: XmlDocument, cs: Seq<usize>, t: Tag)
    requires
        of_tag(doc, cs, t).len() == 0,
    ensures
        last_text(doc, cs, t) is None,
        last_of(doc, cs, t) is None,
        first_of(doc, cs, t) is None,
        forall|inner: Tag| (#[trigger] nested_items(doc, cs, t, inner)).len() == 0,
    decreases cs.len(),
{
    if cs.len() > 0 {
        assert(doc.tag(cs.last() as int) != t);
        absent_element_gives_nothing(doc, cs.drop_last(), t);
        assert forall|inner: Tag| (#[trigger] nested_items(doc, cs, t, inner)).len() == 0 by {
            assert(nested_items(doc, cs.drop_last(), t, inner).len() == 0);
        }
    }
}

/// Inserting a node without tag `t` into `cs` leaves the nodes with tag `t`
/// as they were.
pub proof fn lemma_of_tag_insert(doc: XmlDocument, cs: Seq<usize>, p: int, u: usize, t: Tag)
    requires
        0 <= p <= cs.len(),
        doc.tag(u as int) != t,
    ensures
        of_tag(doc, cs.insert(p, u), t) == of_tag(doc, cs, t),
    decreases cs.len(),
{
    if p == cs.len() {
        assert(cs.insert(p, u).drop_last() =~= cs);
    } else {
        assert(cs.insert(p, u).drop_last() =~= cs.drop_last().insert(p, u));
        assert(cs.insert(p, u).last() == cs.last());
        lemma_of_tag_insert(doc, cs.drop_last(), p, u, t);
    }
}

/// Inserting a node without tag `outer` into `cs` leaves the items of the
/// `outer` lists as they were.
pub proof fn lemma_nested_items_insert(
    doc: XmlDocument,
    cs: Seq<usize>,
    p: int,
    u: usize,
    outer: Tag,
    inner: Tag,
)
    requires
        0 <= p <= cs.len(),
        doc.tag(u as int) != outer,
    ensures
        nested_items(doc, cs.insert(p, u), outer, inner) == nested_items(doc, cs, outer, inner),
    decreases cs.len(),
{
    if p == cs.len() {
        assert(cs.insert(p, u).drop_last() =~= cs);
        assert(nested_items(doc, cs.insert(p, u), outer, inner) =~= nested_items(
            doc,
            cs,
            outer,
            inner,
        ));
    } else {
        assert(cs.insert(p, u).drop_last() =~= cs.drop_last().insert(p, u));
        assert(cs.insert(p, u).last() == cs.last());
        lemma_nested_items_insert(doc, cs.drop_last(), p, u, outer, inner);
    }
}

/// How the tag filter grows by one more node of `cs`.
pub proof fn lemma_of_tag_step(doc: XmlDocument, cs: Seq<usize>, k: int)
    requires
        0 <= k < cs.len(),
    ensures
        forall|t: Tag|
            #[trigger] of_tag(doc, cs.take(k + 1), t) == if doc.tag(cs[k] as int) == t {
                of_tag(doc, cs.take(k), t).push(cs[k])
            } else {
                of_tag(doc, cs.take(k), t)
            },
{
    assert(cs.take(k + 1).drop_last() =~= cs.take(k));
}

/// How the tag filter and the diagnostics grow by one more node of `cs`.
pub proof fn lemma_step(doc: XmlDocument, e: Entity, i: int, cs: Seq<usize>, k: int)
    requires
        0 <= k < cs.len(),
    ensures
        forall|t: Tag|
            #[trigger] of_tag(doc, cs.take(k + 1), t) == if doc.tag(cs[k] as int) == t {
                of_tag(doc, cs.take(k), t).push(cs[k])
            } else {
                of_tag(doc, cs.take(k), t)
            },
        kids_diagnostics(doc, e, i, cs.take(k + 1)) == kids_diagnostics(doc, e, i, cs.take(k))
            + child_diagnostics(doc, e, i, cs[k] as int),
{
    assert(cs.take(k + 1).drop_last() =~= cs.take(k));
}

/// How the diagnostics of gathered items grow by one more item.
pub proof fn lemma_items_push(doc: XmlDocument, e: Entity, i: int, ds: Seq<usize>, d: usize)
    ensures
        items_diagnostics(doc, e, i, ds.push(d)) == items_diagnostics(doc, e, i, ds) + match gathers(e) {
            Some((t, item)) => if i <= d < doc.len() {
                diagnostics_of(doc, item, d as int)
            } else {
                Seq::empty()
            },
            None => Seq::empty(),
        },
{
    assert(ds.push(d).drop_last() =~= ds);
}

/// Appends node `i` and the nodes below it to `out`, in document order.
pub fn collect_subtree(doc: &XmlDocument, i: usize, out: &mut Vec<usize>)
    requires
        doc.wf(),
        i < doc.len(),
    ensures
        final(out)@ == old(out)@ + subtree(*doc, i as int),
        forall|j: int|
            old(out)@.len() <= j < final(out)@.len() ==> i <= #[trigger] final(out)@[j] < doc.len(),
    decreases doc.len() - i,
{
    let ghost start = old(out)@;
    out.push(i);
    let kids = &doc.nodes[i].children;
    let mut k: usize = 0;
    while k < kids.len()
        invariant
            doc.wf(),
            i < doc.len(),
            kids == doc.nodes@[i as int].children,
            k <= kids@.len(),
            out@ == start + seq![i] + subtrees(*doc, i as int, k as int),
            forall|j: int| start.len() <= j < out@.len() ==> i <= #[trigger] out@[j] < doc.len(),
        decreases kids@.len() - k,
    {
        let c = kids[k];
        assert(i < c < doc.len());
        collect_subtree(doc, c, out);
        assert(out@ =~= start + seq![i] + subtrees(*doc, i as int, k + 1));
        k = k + 1;
    }
    assert(out@ =~= start + subtree(*doc, i as int));
}

} // verus!
