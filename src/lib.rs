//! Decoding of PubMed citation records from their XML form into a typed
//! record tree, with every decoder proved against a relational contract.
pub mod article;
pub mod citation;
pub mod date;
pub mod dispatch;
pub mod numbers;
pub mod search;
pub mod xml;

pub use article::{
    Abstract, AffiliationInfo, Article, Author, AuthorList, ELocationID, Grant, GrantList,
    Identifier, Journal, JournalIssue, MeshHeading, MeshTermPart, Pagination, PublicationType,
};
pub use citation::{
    articles_from_document, articles_from_xml, last_article, ArticleId, ArticleIdList, Chemical,
    DecodeError, DecodeMode, Decoded, Keyword, KeywordList, MedlineCitation, MedlineJournalInfo,
    OtherID, PubmedArticle, PubmedData, Reference,
};
pub use date::{month_from_lowered, parse_month, PubMedDate};
pub use dispatch::{Diagnostic, Entity, Severity, Tag};
pub use search::{ids_from_items, ids_from_search_response, JsonValue, SearchError};
pub use xml::{XmlAttribute, XmlDocument, XmlNode};
