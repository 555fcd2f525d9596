//! Calendar dates known to a varying precision, from a year alone down to the
//! minute.
use crate::dispatch::{
    diagnostics_of, kids_diagnostics, last_text, lemma_step, Diagnostic, Entity, Severity, Tag,
};
use crate::numbers::{
    i8_or_unset, read_i8, read_u32, read_u8, u32_or_zero, u8_or_zero, unsigned_of,
    parse_unsigned,
};
use crate::xml::{opt_view, str_eq, XmlDocument};
use vstd::prelude::*;

verus! {

/// A date of which a prefix of year, month, day, hour and minute is known.
/// An unknown month or day is 0; an unknown hour or minute is -1.
#[derive(Debug, Clone, PartialEq)]
pub struct PubMedDate {
    pub year: u32,
    pub month: u8,
    pub day: u8,
    pub hour: i8,
    pub minute: i8,
    pub date_type: Option<String>,
    pub pub_status: Option<String>,
}

/// The precision of a date with these fields: 0 without a year, then 9 for a
/// year, 10 with a month, 11 with a day, 12 with an hour and 13 with a minute.
pub open spec fn precision_of(year: u32, month: u8, day: u8, hour: i8, minute: i8) -> u8 {
    if year == 0 {
        0
    } else if month == 0 {
        9
    } else if day == 0 {
        10
    } else if hour == -1 {
        11
    } else if minute == -1 {
        12
    } else {
        13
    }
}

/// Precision depends on nothing but which of the five fields are present.
pub proof fn precision_depends_on_presence(a: PubMedDate, b: PubMedDate)
    requires
        (a.year == 0) == (b.year == 0),
        (a.month == 0) == (b.month == 0),
        (a.day == 0) == (b.day == 0),
        (a.hour == -1) == (b.hour == -1),
        (a.minute == -1) == (b.minute == -1),
    ensures
        a.spec_precision() == b.spec_precision(),
{
}

/// The lower-case form of a string, as `str::to_lowercase` gives it.
pub uninterp spec fn lower_of(s: Seq<char>) -> Seq<char>;

/// Relies on `str::to_lowercase`, whose result depends on the characters of
/// its argument alone.
#[verifier::external_body]
fn lowercase(s: &str) -> (r: String)
    ensures
        r@ == lower_of(s@),
{
    s.to_lowercase()
}

/// The month that a lower-case month text names: a three-letter English
/// abbreviation, or a number from 1 to 12; 0 for anything else.
pub open spec fn month_named(l: Seq<char>) -> u8 {
    if l == "jan"@ {
        1
    } else if l == "feb"@ {
        2
    } else if l == "mar"@ {
        3
    } else if l == "apr"@ {
        4
    } else if l == "may"@ {
        5
    } else if l == "jun"@ {
        6
    } else if l == "jul"@ {
        7
    } else if l == "aug"@ {
        8
    } else if l == "sep"@ {
        9
    } else if l == "oct"@ {
        10
    } else if l == "nov"@ {
        11
    } else if l == "dec"@ {
        12
    } else {
        match unsigned_of(l, 255) {
            Some(v) => if 1 <= v <= 12 {
                v as u8
            } else {
                0
            },
            None => 0,
        }
    }
}

/// The month of a month element's text; 0 where it has none.
pub open spec fn month_value(t: Option<Seq<char>>) -> u8 {
    match t {
        Some(s) => month_named(lower_of(s)),
        None => 0,
    }
}

/// Two texts with the same lower-case form name the same month.
pub proof fn month_ignores_case(a: Seq<char>, b: Seq<char>)
    requires
        lower_of(a) == lower_of(b),
    ensures
        month_value(Some(a)) == month_value(Some(b)),
{
}

/// The month that an already lower-cased text names.
pub fn month_from_lowered(l: &str) -> (r: u8)
    ensures
        r == month_named(l@),
{
    if str_eq(l, "jan") {
        1
    } else if str_eq(l, "feb") {
        2
    } else if str_eq(l, "mar") {
        3
    } else if str_eq(l, "apr") {
        4
    } else if str_eq(l, "may") {
        5
    } else if str_eq(l, "jun") {
        6
    } else if str_eq(l, "jul") {
        7
    } else if str_eq(l, "aug") {
        8
    } else if str_eq(l, "sep") {
        9
    } else if str_eq(l, "oct") {
        10
    } else if str_eq(l, "nov") {
        11
    } else if str_eq(l, "dec") {
        12
    } else {
        match parse_unsigned(l, 255) {
            Some(v) => if 1 <= v && v <= 12 {
                v as u8
            } else {
                0
            },
            None => 0,
        }
    }
}

/// The month of a month element's text, in any letter case.
pub fn parse_month(t: &Option<String>) -> (r: u8)
    ensures
        r == month_value(opt_view(*t)),
{
    match t {
        Some(s) => {
            let l = lowercase(s.as_str());
            month_from_lowered(l.as_str())
        },
        None => 0,
    }
}


/// The date elements among `ns` that name a year, in order.
pub open spec fn with_year(doc: XmlDocument, ns: Seq<usize>) -> Seq<usize>
    decreases ns.len(),
{
    if ns.len() == 0 {
        Seq::empty()
    } else {
        let rest = with_year(doc, ns.drop_last());
        let c = ns.last() as int;
        if u32_or_zero(last_text(doc, doc.kids(c), Tag::Year)) != 0 {
            rest.push(ns.last())
        } else {
            rest
        }
    }
}

pub proof fn lemma_with_year_push(doc: XmlDocument, ns: Seq<usize>, c: usize)
    ensures
        with_year(doc, ns.push(c)) == if u32_or_zero(
            last_text(doc, doc.kids(c as int), Tag::Year),
        ) != 0 {
            with_year(doc, ns).push(c)
        } else {
            with_year(doc, ns)
        },
{
    assert(ns.push(c).drop_last() =~= ns);
}

impl PubMedDate {
    pub open spec fn all_decoded(s: Seq<PubMedDate>, doc: XmlDocument, ns: Seq<usize>) -> bool {
        &&& s.len() == ns.len()
        &&& forall|j: int| 0 <= j < s.len() ==> (#[trigger] s[j]).decoded_from(doc, ns[j] as int)
    }

    pub open spec fn spec_precision(&self) -> u8 {
        precision_of(self.year, self.month, self.day, self.hour, self.minute)
    }

    /// How much of the date is known, from 0 (not even a year) to 13.
    pub fn precision(&self) -> (r: u8)
        ensures
            r == self.spec_precision(),
    {
        if self.year == 0 {
            0
        } else if self.month == 0 {
            9
        } else if self.day == 0 {
            10
        } else if self.hour == -1 {
            11
        } else if self.minute == -1 {
            12
        } else {
            13
        }
    }

    /// The fields that the date element `i` gives: for each part, the last
    /// element of that name wins; its attributes give the date's kind and status.
    pub open spec fn decoded_from(&self, doc: XmlDocument, i: int) -> bool {
        let cs = doc.kids(i);
        &&& self.year == u32_or_zero(last_text(doc, cs, Tag::Year))
        &&& self.month == month_value(last_text(doc, cs, Tag::Month))
        &&& self.day == u8_or_zero(last_text(doc, cs, Tag::Day))
        &&& self.hour == i8_or_unset(last_text(doc, cs, Tag::Hour))
        &&& self.minute == i8_or_unset(last_text(doc, cs, Tag::Minute))
        &&& opt_view(self.date_type) == doc.attr(i, "DateType"@)
        &&& opt_view(self.pub_status) == doc.attr(i, "PubStatus"@)
    }

    /// Whether `r` is what date element `i` decodes to: no date where it names
    /// no year, else the date with the fields it gives.
    pub open spec fn decodes(r: Option<PubMedDate>, doc: XmlDocument, i: int) -> bool {
        match r {
            Some(d) => d.decoded_from(doc, i) && d.year != 0,
            None => u32_or_zero(last_text(doc, doc.kids(i), Tag::Year)) == 0,
        }
    }

    /// Decodes date element `i`. Free-text and season dates are not read:
    /// such an element gives no date. Unrecognised children are appended to
    /// `diags`.
    pub fn new_from_xml(doc: &XmlDocument, i: usize, diags: &mut Vec<Diagnostic>) -> (r: Option<
        PubMedDate,
    >)
        requires
            doc.wf(),
            i < doc.len(),
        ensures
            Self::decodes(r, *doc, i as int),
            final(diags)@ == old(diags)@ + diagnostics_of(*doc, Entity::PubMedDate, i as int),
    {
        let mut ret = PubMedDate {
            year: 0,
            month: 0,
            day: 0,
            hour: -1,
            minute: -1,
            date_type: doc.attribute(i, "DateType"),
            pub_status: doc.attribute(i, "PubStatus"),
        };
        let ghost start = old(diags)@;
        let ghost d = *doc;
        let kids = &doc.nodes[i].children;
        let ghost cs = kids@;
        let mut k: usize = 0;
        while k < kids.len()
            invariant
                doc.wf(),
                i < doc.len(),
                kids == doc.nodes@[i as int].children,
                cs == kids@,
                d == *doc,
                k <= cs.len(),
                ret.year == u32_or_zero(last_text(d, cs.take(k as int), Tag::Year)),
                ret.month == month_value(last_text(d, cs.take(k as int), Tag::Month)),
                ret.day == u8_or_zero(last_text(d, cs.take(k as int), Tag::Day)),
                ret.hour == i8_or_unset(last_text(d, cs.take(k as int), Tag::Hour)),
                ret.minute == i8_or_unset(last_text(d, cs.take(k as int), Tag::Minute)),
                opt_view(ret.date_type) == d.attr(i as int, "DateType"@),
                opt_view(ret.pub_status) == d.attr(i as int, "PubStatus"@),
                diags@ == start + kids_diagnostics(d, Entity::PubMedDate, i as int, cs.take(k as int)),
            decreases cs.len() - k,
        {
            let c = kids[k];
            proof {
                lemma_step(d, Entity::PubMedDate, i as int, cs, k as int);
            }
            match doc.tag_of(c) {
                Tag::Year => ret.year = read_u32(&doc.nodes[c].text),
                Tag::Month => ret.month = parse_month(&doc.nodes[c].text),
                Tag::Day => ret.day = read_u8(&doc.nodes[c].text),
                Tag::Hour => ret.hour = read_i8(&doc.nodes[c].text),
                Tag::Minute => ret.minute = read_i8(&doc.nodes[c].text),
                Tag::MedlineDate | Tag::Season => {
                    diags.push(doc.make_diag(Entity::PubMedDate, c, Severity::Unsupported));
                },
                Tag::NotElement => {},
                _ => diags.push(doc.make_diag(Entity::PubMedDate, c, Severity::Unrecognized)),
            }
            assert(diags@ =~= start + kids_diagnostics(
                d,
                Entity::PubMedDate,
                i as int,
                cs.take(k + 1),
            ));
            k = k + 1;
        }
        assert(cs.take(cs.len() as int) =~= cs);
        if ret.year == 0 {
            None
        } else {
            Some(ret)
        }
    }
}

} // verus!
