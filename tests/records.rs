use pubmed::{articles_from_xml, last_article, DecodeError, DecodeMode, Decoded, PubmedArticle};

const ARTICLE_22722859: &str = r#"<?xml version="1.0" ?>
<!DOCTYPE PubmedArticleSet PUBLIC "-//NLM//DTD PubMedArticle, 1st January 2019//EN" "https://dtd.nlm.nih.gov/ncbi/pubmed/out/pubmed_190101.dtd">
<PubmedArticleSet>
<PubmedArticle>
    <MedlineCitation Status="MEDLINE" Owner="NLM">
        <PMID Version="1">22722859</PMID>
        <DateCompleted>
            <Year>2012</Year>
            <Month>08</Month>
            <Day>17</Day>
        </DateCompleted>
        <DateRevised>
            <Year>2019</Year>
            <Month>12</Month>
            <Day>10</Day>
        </DateRevised>
        <Article PubModel="Print">
            <Journal>
                <ISSN IssnType="Electronic">1476-4687</ISSN>
                <JournalIssue CitedMedium="Internet">
                    <Volume>486</Volume>
                    <Issue>7403</Issue>
                    <PubDate>
                        <Year>2012</Year>
                        <Month>Jun</Month>
                        <Day>21</Day>
                    </PubDate>
                </JournalIssue>
                <Title>Nature</Title>
                <ISOAbbreviation>Nature</ISOAbbreviation>
            </Journal>
            <ArticleTitle>Structure of the human M2 muscarinic acetylcholine receptor.</ArticleTitle>
            <Pagination>
                <MedlinePgn>547-51</MedlinePgn>
            </Pagination>
            <ELocationID EIdType="doi" ValidYN="Y">10.1038/nature11174</ELocationID>
            <AuthorList CompleteYN="Y">
                <Author ValidYN="Y">
                    <LastName>Haga</LastName>
                    <ForeName>Kazuko</ForeName>
                    <Initials>K</Initials>
                </Author>
            </AuthorList>
            <Language>eng</Language>
            <PublicationTypeList>
                <PublicationType UI="D016428">Journal Article</PublicationType>
            </PublicationTypeList>
        </Article>
        <MedlineJournalInfo>
            <Country>England</Country>
            <MedlineTA>Nature</MedlineTA>
            <NlmUniqueID>0410462</NlmUniqueID>
            <ISSNLinking>0028-0836</ISSNLinking>
        </MedlineJournalInfo>
    </MedlineCitation>
    <PubmedData>
        <History>
            <PubMedPubDate PubStatus="received">
                <Year>2011</Year>
                <Month>11</Month>
                <Day>21</Day>
            </PubMedPubDate>
        </History>
        <PublicationStatus>epublish</PublicationStatus>
        <ArticleIdList>
            <ArticleId IdType="pubmed">22722859</ArticleId>
            <ArticleId IdType="doi">10.1038/nature11174</ArticleId>
        </ArticleIdList>
    </PubmedData>
</PubmedArticle>
</PubmedArticleSet>
"#;

const ARTICLE_13777676: &str = r#"<?xml version="1.0" ?>
<PubmedArticleSet>
<PubmedArticle>
    <MedlineCitation Status="OLDMEDLINE" Owner="NLM">
        <PMID Version="1">13777676</PMID>
        <DateCompleted>
            <Year>1996</Year>
            <Month>12</Month>
            <Day>01</Day>
        </DateCompleted>
        <Article PubModel="Print">
            <Journal>
                <ISSN IssnType="Print">0022-3476</ISSN>
                <JournalIssue CitedMedium="Print">
                    <Volume>58</Volume>
                    <PubDate>
                        <Year>1961</Year>
                        <Month>May</Month>
                    </PubDate>
                </JournalIssue>
                <Title>The Journal of pediatrics</Title>
            </Journal>
            <ArticleTitle>Observations in the newborn.</ArticleTitle>
        </Article>
    </MedlineCitation>
</PubmedArticle>
</PubmedArticleSet>
"#;

fn fetch_one(text: &str, id: u64) -> PubmedArticle {
    let decoded: Decoded = articles_from_xml(text, DecodeMode::Permissive).unwrap();
    last_article(decoded.articles, id).unwrap()
}

#[test]
fn work() {
    let article = fetch_one(ARTICLE_22722859, 22722859);
    let date = article
        .medline_citation
        .unwrap()
        .date_completed
        .unwrap()
        .clone();
    assert_eq!(date.year, 2012);
    assert_eq!(date.month, 8);
    assert_eq!(date.day, 17);
}

#[test]
fn date_parsing() {
    let article = fetch_one(ARTICLE_13777676, 13777676);
    let date = article
        .medline_citation
        .unwrap()
        .article
        .unwrap()
        .journal
        .unwrap()
        .journal_issue
        .unwrap()
        .pub_date
        .unwrap();
    assert_eq!(date.year, 1961);
    assert_eq!(date.month, 5);
    assert_eq!(date.day, 0);
}

#[test]
fn full_record_fields() {
    let decoded = articles_from_xml(ARTICLE_22722859, DecodeMode::Strict).unwrap();
    assert_eq!(decoded.articles.len(), 1);
    assert!(decoded.diagnostics.is_empty());
    let record = &decoded.articles[0];
    let citation = record.medline_citation.as_ref().unwrap();
    assert_eq!(citation.pmid, 22722859);
    let revised = citation.date_revised.as_ref().unwrap();
    assert_eq!((revised.year, revised.month, revised.day), (2019, 12, 10));
    let article = citation.article.as_ref().unwrap();
    assert_eq!(article.pub_model.as_deref(), Some("Print"));
    assert_eq!(
        article.title.as_deref(),
        Some("Structure of the human M2 muscarinic acetylcholine receptor.")
    );
    assert_eq!(article.pagination, vec![pubmed::Pagination::MedlinePgn("547-51".to_string())]);
    assert_eq!(article.e_location_ids.len(), 1);
    assert_eq!(article.e_location_ids[0].e_id_type.as_deref(), Some("doi"));
    assert!(article.e_location_ids[0].valid);
    assert_eq!(article.e_location_ids[0].id.as_deref(), Some("10.1038/nature11174"));
    let journal = article.journal.as_ref().unwrap();
    assert_eq!(journal.issn.as_deref(), Some("1476-4687"));
    assert_eq!(journal.issn_type.as_deref(), Some("Electronic"));
    assert_eq!(journal.iso_abbreviation.as_deref(), Some("Nature"));
    let issue = journal.journal_issue.as_ref().unwrap();
    assert_eq!(issue.cited_medium.as_deref(), Some("Internet"));
    assert_eq!(issue.volume.as_deref(), Some("486"));
    assert_eq!(issue.issue.as_deref(), Some("7403"));
    let pub_date = issue.pub_date.as_ref().unwrap();
    assert_eq!((pub_date.year, pub_date.month, pub_date.day), (2012, 6, 21));
    assert_eq!(pub_date.precision(), 11);
    let authors = article.author_list.as_ref().unwrap();
    assert!(authors.complete);
    assert_eq!(authors.authors.len(), 1);
    assert_eq!(authors.authors[0].last_name.as_deref(), Some("Haga"));
    assert_eq!(authors.authors[0].fore_name.as_deref(), Some("Kazuko"));
    assert_eq!(authors.authors[0].initials.as_deref(), Some("K"));
    assert!(authors.authors[0].valid);
    assert_eq!(article.language.as_deref(), Some("eng"));
    assert_eq!(article.publication_type_list.len(), 1);
    assert_eq!(article.publication_type_list[0].ui.as_deref(), Some("D016428"));
    assert_eq!(article.publication_type_list[0].name.as_deref(), Some("Journal Article"));
    let info = citation.medline_journal_info.as_ref().unwrap();
    assert_eq!(info.country.as_deref(), Some("England"));
    assert_eq!(info.nlm_unique_id.as_deref(), Some("0410462"));
    assert_eq!(info.issn_linking.as_deref(), Some("0028-0836"));
    let data = record.pubmed_data.as_ref().unwrap();
    assert_eq!(data.publication_status.as_deref(), Some("epublish"));
    assert_eq!(data.history.len(), 1);
    assert_eq!(data.history[0].pub_status.as_deref(), Some("received"));
    assert_eq!((data.history[0].year, data.history[0].month, data.history[0].day), (2011, 11, 21));
    let ids = data.article_ids.as_ref().unwrap();
    assert_eq!(ids.ids.len(), 2);
    assert_eq!(ids.ids[1].id_type.as_deref(), Some("doi"));
    assert_eq!(ids.ids[1].id.as_deref(), Some("10.1038/nature11174"));
}

#[test]
fn empty_document_gives_no_records() {
    let decoded = articles_from_xml("<PubmedArticleSet></PubmedArticleSet>", DecodeMode::Strict)
        .unwrap();
    assert!(decoded.articles.is_empty());
    assert!(decoded.diagnostics.is_empty());
}

#[test]
fn malformed_text_is_an_error() {
    let r = articles_from_xml("<PubmedArticleSet><PubmedArticle>", DecodeMode::Permissive);
    assert!(matches!(r, Err(DecodeError::MalformedXml(_))));
}

#[test]
fn empty_batch_is_not_found() {
    assert_eq!(last_article(vec![], 42), Err(DecodeError::NotFound(42)));
}

#[test]
fn batch_keeps_document_order() {
    let text = "<PubmedArticleSet>\
        <PubmedArticle><MedlineCitation><PMID>3</PMID></MedlineCitation></PubmedArticle>\
        <PubmedArticle><MedlineCitation><PMID>1</PMID></MedlineCitation></PubmedArticle>\
        <PubmedArticle><MedlineCitation><PMID>2</PMID></MedlineCitation></PubmedArticle>\
        </PubmedArticleSet>";
    let decoded = articles_from_xml(text, DecodeMode::Strict).unwrap();
    let ids: Vec<u64> = decoded
        .articles
        .iter()
        .map(|a| a.medline_citation.as_ref().unwrap().pmid)
        .collect();
    assert_eq!(ids, vec![3, 1, 2]);
    let last = last_article(decoded.articles, 2).unwrap();
    assert_eq!(last.medline_citation.unwrap().pmid, 2);
}

#[test]
fn missing_or_bad_pmid_is_zero() {
    let text = "<PubmedArticle><MedlineCitation><PMID>abc</PMID></MedlineCitation></PubmedArticle>";
    let decoded = articles_from_xml(text, DecodeMode::Strict).unwrap();
    assert_eq!(decoded.articles[0].medline_citation.as_ref().unwrap().pmid, 0);
    let text = "<PubmedArticle><MedlineCitation></MedlineCitation></PubmedArticle>";
    let decoded = articles_from_xml(text, DecodeMode::Strict).unwrap();
    assert_eq!(decoded.articles[0].medline_citation.as_ref().unwrap().pmid, 0);
}
