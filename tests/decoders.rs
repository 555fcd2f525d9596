use pubmed::numbers::{parse_i8, parse_unsigned};
use pubmed::{
    articles_from_xml, month_from_lowered, parse_month, Abstract, Article, DecodeError, DecodeMode,
    Diagnostic, Entity, Grant, Severity, Journal, JournalIssue, MedlineCitation, PubMedDate, XmlDocument,
};

fn node_named(doc: &XmlDocument, name: &str) -> usize {
    doc.nodes.iter().position(|n| n.is_element && n.name == name).unwrap()
}

fn date_of(text: &str) -> (Option<PubMedDate>, Vec<Diagnostic>) {
    let doc = XmlDocument::parse(text).unwrap();
    let i = node_named(&doc, "PubDate");
    let mut diags = Vec::new();
    let date = PubMedDate::new_from_xml(&doc, i, &mut diags);
    (date, diags)
}

fn date(year: u32, month: u8, day: u8, hour: i8, minute: i8) -> PubMedDate {
    PubMedDate { year, month, day, hour, minute, date_type: None, pub_status: None }
}

#[test]
fn year_only_date() {
    let (d, diags) = date_of("<PubDate><Year>1961</Year></PubDate>");
    let d = d.unwrap();
    assert_eq!((d.year, d.month, d.day), (1961, 0, 0));
    assert_eq!((d.hour, d.minute), (-1, -1));
    assert_eq!(d.precision(), 9);
    assert!(diags.is_empty());
}

#[test]
fn year_and_month_name_date() {
    let (d, _) = date_of("<PubDate><Year>1961</Year><Month>May</Month></PubDate>");
    let d = d.unwrap();
    assert_eq!((d.year, d.month, d.day), (1961, 5, 0));
    assert_eq!(d.precision(), 10);
}

#[test]
fn date_without_year_is_absent() {
    let (d, _) = date_of("<PubDate><Month>May</Month><Day>3</Day></PubDate>");
    assert!(d.is_none());
    let (d, _) = date_of("<PubDate><MedlineDate>1998 Dec-1999 Jan</MedlineDate></PubDate>");
    assert!(d.is_none());
    let (d, diags) = date_of("<PubDate><Year>1999</Year><Season>Spring</Season></PubDate>");
    assert_eq!(d.unwrap().month, 0);
    assert_eq!(
        diags,
        vec![Diagnostic {
            entity: Entity::PubMedDate,
            tag: "Season".to_string(),
            severity: Severity::Unsupported
        }]
    );
}

#[test]
fn full_date_with_attributes() {
    let (d, _) = date_of(
        "<PubDate PubStatus=\"pubmed\" DateType=\"Electronic\"><Year>2020</Year><Month>12</Month>\
         <Day>31</Day><Hour>6</Hour><Minute>0</Minute></PubDate>",
    );
    let d = d.unwrap();
    assert_eq!((d.year, d.month, d.day, d.hour, d.minute), (2020, 12, 31, 6, 0));
    assert_eq!(d.precision(), 13);
    assert_eq!(d.pub_status.as_deref(), Some("pubmed"));
    assert_eq!(d.date_type.as_deref(), Some("Electronic"));
}

#[test]
fn repeated_year_last_wins() {
    let (d, _) = date_of("<PubDate><Year>1990</Year><Year>1991</Year></PubDate>");
    assert_eq!(d.unwrap().year, 1991);
}

#[test]
fn unreadable_numbers_default() {
    let (d, _) = date_of("<PubDate><Year>2001</Year><Month>Foo</Month><Day>300</Day><Hour>x</Hour></PubDate>");
    let d = d.unwrap();
    assert_eq!((d.month, d.day, d.hour), (0, 0, -1));
}

#[test]
fn precision_table() {
    assert_eq!(date(0, 5, 5, 5, 5).precision(), 0);
    assert_eq!(date(2000, 0, 0, -1, -1).precision(), 9);
    assert_eq!(date(2000, 0, 5, 5, 5).precision(), 9);
    assert_eq!(date(2000, 3, 0, -1, -1).precision(), 10);
    assert_eq!(date(2000, 3, 4, -1, -1).precision(), 11);
    assert_eq!(date(2000, 3, 4, 10, -1).precision(), 12);
    assert_eq!(date(2000, 3, 4, 10, 30).precision(), 13);
}

#[test]
fn month_names_in_any_case() {
    for text in ["May", "MAY", "may", "5", "mAy", "+5"] {
        assert_eq!(parse_month(&Some(text.to_string())), 5, "{}", text);
    }
    assert_eq!(parse_month(&Some("Dec".to_string())), 12);
    assert_eq!(parse_month(&Some("JAN".to_string())), 1);
    assert_eq!(parse_month(&Some("Spring".to_string())), 0);
    assert_eq!(parse_month(&Some("".to_string())), 0);
    assert_eq!(parse_month(&None), 0);
    assert_eq!(month_from_lowered("sep"), 9);
    assert_eq!(month_from_lowered("SEP"), 0);
    assert_eq!(month_from_lowered("07"), 7);
}

#[test]
fn numeric_month_out_of_range_is_absent() {
    assert_eq!(parse_month(&Some("13".to_string())), 0);
    assert_eq!(parse_month(&Some("0".to_string())), 0);
    assert_eq!(parse_month(&Some("255".to_string())), 0);
    assert_eq!(parse_month(&Some("12".to_string())), 12);
    assert_eq!(month_from_lowered("1"), 1);
}

#[test]
fn number_reading() {
    assert_eq!(parse_unsigned("255", 255), Some(255));
    assert_eq!(parse_unsigned("256", 255), None);
    assert_eq!(parse_unsigned("+17", 255), Some(17));
    assert_eq!(parse_unsigned("-1", 255), None);
    assert_eq!(parse_unsigned("", 255), None);
    assert_eq!(parse_unsigned("+", 255), None);
    assert_eq!(parse_unsigned(" 1", 255), None);
    assert_eq!(parse_unsigned("18446744073709551615", u64::MAX), Some(u64::MAX));
    assert_eq!(parse_unsigned("18446744073709551616", u64::MAX), None);
    assert_eq!(parse_unsigned("000123", u64::MAX), Some(123));
    assert_eq!(parse_i8("-128"), Some(-128));
    assert_eq!(parse_i8("-129"), None);
    assert_eq!(parse_i8("127"), Some(127));
    assert_eq!(parse_i8("128"), None);
    assert_eq!(parse_i8("-"), None);
}

#[test]
fn abstract_keeps_first_block() {
    let doc = XmlDocument::parse(
        "<Abstract><AbstractText Label=\"A\">First part.</AbstractText>\
         <AbstractText Label=\"B\">Second part.</AbstractText></Abstract>",
    )
    .unwrap();
    let a = Abstract::new_from_xml(&doc, node_named(&doc, "Abstract"));
    assert_eq!(a.text.as_deref(), Some("First part."));
    let doc = XmlDocument::parse("<Abstract><AbstractText/></Abstract>").unwrap();
    let a = Abstract::new_from_xml(&doc, node_named(&doc, "Abstract"));
    assert_eq!(a.text.as_deref(), Some(""));
    let doc = XmlDocument::parse("<Abstract></Abstract>").unwrap();
    let a = Abstract::new_from_xml(&doc, node_named(&doc, "Abstract"));
    assert_eq!(a.text, None);
}

#[test]
fn mesh_heading_list_with_qualifiers() {
    let text = "<PubmedArticle><MedlineCitation><PMID>1</PMID><MeshHeadingList>\
        <MeshHeading>\
        <DescriptorName UI=\"D000001\" MajorTopicYN=\"Y\">Test</DescriptorName>\
        <QualifierName UI=\"Q000002\" MajorTopicYN=\"N\">first</QualifierName>\
        <QualifierName UI=\"Q000003\" MajorTopicYN=\"Y\">second</QualifierName>\
        </MeshHeading>\
        <MeshHeading><QualifierName UI=\"Q9\">orphan</QualifierName></MeshHeading>\
        </MeshHeadingList></MedlineCitation></PubmedArticle>";
    let decoded = articles_from_xml(text, DecodeMode::Strict).unwrap();
    let citation = decoded.articles[0].medline_citation.as_ref().unwrap();
    assert_eq!(citation.mesh_heading_list.len(), 1);
    let heading = &citation.mesh_heading_list[0];
    assert_eq!(heading.descriptor.ui.as_deref(), Some("D000001"));
    assert!(heading.descriptor.major_topic);
    assert_eq!(heading.descriptor.name.as_deref(), Some("Test"));
    assert_eq!(heading.qualifiers.len(), 2);
    assert_eq!(heading.qualifiers[0].name.as_deref(), Some("first"));
    assert!(!heading.qualifiers[0].major_topic);
    assert_eq!(heading.qualifiers[1].name.as_deref(), Some("second"));
    assert!(heading.qualifiers[1].major_topic);
}

const GRANT_WITH_EXTRA: &str = "<PubmedArticle><MedlineCitation><PMID>7</PMID>\
    <Article><GrantList CompleteYN=\"N\"><Grant><GrantID>R01 GM1</GrantID>\
    <Agency>NIGMS NIH HHS</Agency><Funder>Someone</Funder><Country>United States</Country>\
    </Grant></GrantList></Article></MedlineCitation></PubmedArticle>";

#[test]
fn permissive_mode_skips_unknown_child() {
    let decoded = articles_from_xml(GRANT_WITH_EXTRA, DecodeMode::Permissive).unwrap();
    let article = decoded.articles[0].medline_citation.as_ref().unwrap().article.as_ref().unwrap();
    let grants = article.grant_list.as_ref().unwrap();
    assert!(!grants.complete);
    assert_eq!(grants.grants.len(), 1);
    assert_eq!(grants.grants[0].grant_id.as_deref(), Some("R01 GM1"));
    assert_eq!(grants.grants[0].agency.as_deref(), Some("NIGMS NIH HHS"));
    assert_eq!(grants.grants[0].country.as_deref(), Some("United States"));
    assert_eq!(grants.grants[0].acronym, None);
    assert_eq!(
        decoded.diagnostics,
        vec![Diagnostic {
            entity: Entity::Grant,
            tag: "Funder".to_string(),
            severity: Severity::Unrecognized
        }]
    );
}

#[test]
fn strict_mode_fails_on_unknown_child() {
    let r = articles_from_xml(GRANT_WITH_EXTRA, DecodeMode::Strict);
    assert_eq!(
        r,
        Err(DecodeError::UnrecognizedElement(Diagnostic {
            entity: Entity::Grant,
            tag: "Funder".to_string(),
            severity: Severity::Unrecognized
        }))
    );
}

#[test]
fn strict_mode_names_first_unknown_child() {
    let text = "<PubmedArticle><MedlineCitation><Foo/><Article><Bar/></Article>\
        </MedlineCitation><Baz/></PubmedArticle>";
    let r = articles_from_xml(text, DecodeMode::Strict);
    assert_eq!(
        r,
        Err(DecodeError::UnrecognizedElement(Diagnostic {
            entity: Entity::MedlineCitation,
            tag: "Foo".to_string(),
            severity: Severity::Unrecognized
        }))
    );
    let decoded = articles_from_xml(text, DecodeMode::Permissive).unwrap();
    let tags: Vec<(Entity, String)> =
        decoded.diagnostics.into_iter().map(|d| (d.entity, d.tag)).collect();
    assert_eq!(
        tags,
        vec![
            (Entity::MedlineCitation, "Foo".to_string()),
            (Entity::Article, "Bar".to_string()),
            (Entity::PubmedArticle, "Baz".to_string()),
        ]
    );
}

#[test]
fn grant_direct() {
    let doc = XmlDocument::parse("<Grant><GrantID>A</GrantID><Acronym>GM</Acronym><Other/></Grant>")
        .unwrap();
    let mut diags = Vec::new();
    let g = Grant::new_from_xml(&doc, node_named(&doc, "Grant"), &mut diags);
    assert_eq!(g.grant_id.as_deref(), Some("A"));
    assert_eq!(g.acronym.as_deref(), Some("GM"));
    assert_eq!(diags.len(), 1);
    assert_eq!(diags[0].tag, "Other");
}

#[test]
fn omitted_elements_are_absent() {
    let text = "<PubmedArticle><MedlineCitation><PMID>5</PMID><Article>\
        <Journal></Journal></Article></MedlineCitation></PubmedArticle>";
    let decoded = articles_from_xml(text, DecodeMode::Strict).unwrap();
    let record = &decoded.articles[0];
    assert!(record.pubmed_data.is_none());
    let citation = record.medline_citation.as_ref().unwrap();
    assert!(citation.date_completed.is_none());
    assert!(citation.date_revised.is_none());
    assert!(citation.mesh_heading_list.is_empty());
    assert!(citation.keyword_lists.is_empty());
    assert!(citation.chemical_list.is_empty());
    assert!(citation.coi_statement.is_none());
    let article = citation.article.as_ref().unwrap();
    assert!(article.title.is_none());
    assert!(article.the_abstract.is_none());
    assert!(article.author_list.is_none());
    assert!(article.pagination.is_empty());
    assert!(article.article_date.is_empty());
    assert!(article.publication_type_list.is_empty());
    let journal = article.journal.as_ref().unwrap();
    assert!(journal.issn.is_none());
    assert!(journal.journal_issue.is_none());
}

#[test]
fn constructors_are_empty() {
    let j = JournalIssue::new();
    assert!(j.volume.is_none() && j.issue.is_none() && j.pub_date.is_none());
    let j = Journal::new();
    assert!(j.title.is_none() && j.journal_issue.is_none());
    let a = Article::new();
    assert!(a.pagination.is_empty() && a.journal.is_none());
    let m = MedlineCitation::new();
    assert_eq!(m.pmid, 0);
    assert!(m.other_ids.is_empty());
}

#[test]
fn last_scalar_wins_and_lists_accumulate() {
    let text = "<PubmedArticle><MedlineCitation>\
        <PMID>10</PMID><PMID>11</PMID>\
        <CitationSubset>IM</CitationSubset><CitationSubset/><CitationSubset>AIM</CitationSubset>\
        <OtherID Source=\"NLM\">PMC1</OtherID>\
        <KeywordList Owner=\"NOTNLM\"><Keyword MajorTopicYN=\"Y\">cells</Keyword><Keyword/></KeywordList>\
        <ChemicalList><Chemical><RegistryNumber>0</RegistryNumber>\
        <NameOfSubstance UI=\"D1\">Water</NameOfSubstance></Chemical></ChemicalList>\
        <ChemicalList><Chemical><RegistryNumber>1</RegistryNumber></Chemical></ChemicalList>\
        <GeneSymbolList><GeneSymbol>abc</GeneSymbol><GeneSymbol/></GeneSymbolList>\
        <InvestigatorList><Investigator><CollectiveName>Group</CollectiveName></Investigator>\
        </InvestigatorList>\
        <Article><ArticleTitle>One</ArticleTitle><ArticleTitle>Two</ArticleTitle>\
        <Pagination><MedlinePgn>1-2</MedlinePgn></Pagination><Pagination><MedlinePgn/></Pagination>\
        <ArticleDate DateType=\"Electronic\"><Year>2012</Year></ArticleDate>\
        <ArticleDate><Month>1</Month></ArticleDate>\
        </Article>\
        </MedlineCitation></PubmedArticle>";
    let decoded = articles_from_xml(text, DecodeMode::Strict).unwrap();
    let c = decoded.articles[0].medline_citation.as_ref().unwrap();
    assert_eq!(c.pmid, 11);
    assert_eq!(c.citation_subsets, vec!["IM".to_string(), "AIM".to_string()]);
    assert_eq!(c.other_ids[0].source.as_deref(), Some("NLM"));
    assert_eq!(c.other_ids[0].id.as_deref(), Some("PMC1"));
    assert_eq!(c.keyword_lists[0].owner.as_deref(), Some("NOTNLM"));
    assert_eq!(c.keyword_lists[0].keywords.len(), 2);
    assert!(c.keyword_lists[0].keywords[0].major_topic);
    assert_eq!(c.keyword_lists[0].keywords[1].keyword, "");
    assert_eq!(c.chemical_list.len(), 2);
    assert_eq!(c.chemical_list[0].name_of_substance.as_deref(), Some("Water"));
    assert_eq!(c.chemical_list[0].name_of_substance_ui.as_deref(), Some("D1"));
    assert_eq!(c.chemical_list[1].registry_number.as_deref(), Some("1"));
    assert_eq!(c.gene_symbol_list, vec!["abc".to_string(), "".to_string()]);
    assert_eq!(c.investigator_list[0].collective_name.as_deref(), Some("Group"));
    let a = c.article.as_ref().unwrap();
    assert_eq!(a.title.as_deref(), Some("Two"));
    assert_eq!(a.pagination.len(), 2);
    assert_eq!(a.article_date.len(), 1);
    assert_eq!(a.article_date[0].date_type.as_deref(), Some("Electronic"));
}

#[test]
fn unsupported_elements_are_reported_not_fatal() {
    let text = "<PubmedArticle><MedlineCitation><PMID>9</PMID><GeneralNote>n</GeneralNote>\
        <Article><Journal><JournalIssue><PubDate><MedlineDate>1998 Dec-1999 Jan</MedlineDate>\
        </PubDate></JournalIssue></Journal><DataBankList/></Article><Bad/>\
        </MedlineCitation></PubmedArticle>";
    let r = articles_from_xml(text, DecodeMode::Strict);
    assert_eq!(
        r,
        Err(DecodeError::UnrecognizedElement(Diagnostic {
            entity: Entity::MedlineCitation,
            tag: "Bad".to_string(),
            severity: Severity::Unrecognized
        }))
    );
    let ok_text = text.replace("<Bad/>", "");
    let decoded = articles_from_xml(&ok_text, DecodeMode::Strict).unwrap();
    let found: Vec<(Entity, String, Severity)> =
        decoded.diagnostics.into_iter().map(|d| (d.entity, d.tag, d.severity)).collect();
    assert_eq!(
        found,
        vec![
            (Entity::MedlineCitation, "GeneralNote".to_string(), Severity::Unsupported),
            (Entity::PubMedDate, "MedlineDate".to_string(), Severity::Unsupported),
            (Entity::Article, "DataBankList".to_string(), Severity::Unsupported),
        ]
    );
}
