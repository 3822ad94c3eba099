//! Reading a roster written as delimited text: a header line, then one
//! contact per line as `surname, name, dd/mm/yyyy, email[, phone]`.
use chrono::Datelike;
use vstd::prelude::*;
use crate::calendar::{is_calendar_date, Date, DateView};
use crate::friends::{friend_views, FriendData, FriendView};

verus! {

/// Separator between the fields of a line.
pub const FIELD_SEPARATOR: char = ',';

/// How a birth date is written: day, month and year, separated by slashes.
pub const DATE_FORMAT: &'static str = "%d/%m/%Y";

/// The characters of Unicode's White_Space property.
pub open spec fn is_white_space(c: char) -> bool {
    ||| ('\u{9}' <= c && c <= '\u{d}')
    ||| c == ' '
    ||| c == '\u{85}'
    ||| c == '\u{a0}'
    ||| c == '\u{1680}'
    ||| ('\u{2000}' <= c && c <= '\u{200a}')
    ||| c == '\u{2028}'
    ||| c == '\u{2029}'
    ||| c == '\u{202f}'
    ||| c == '\u{205f}'
    ||| c == '\u{3000}'
}

/// `s` without its leading white space.
pub open spec fn trim_start(s: Seq<char>) -> Seq<char>
    decreases s.len(),
{
    if s.len() > 0 && is_white_space(s[0]) {
        trim_start(s.drop_first())
    } else {
        s
    }
}

/// `s` without its trailing white space.
pub open spec fn trim_end(s: Seq<char>) -> Seq<char>
    decreases s.len(),
{
    if s.len() > 0 && is_white_space(s.last()) {
        trim_end(s.drop_last())
    } else {
        s
    }
}

/// `s` without its leading and trailing white space.
pub open spec fn trimmed(s: Seq<char>) -> Seq<char> {
    trim_end(trim_start(s))
}

/// The pieces of `s` between the occurrences of `sep`: one more than there are
/// occurrences, each possibly empty.
pub open spec fn split_on(s: Seq<char>, sep: char) -> Seq<Seq<char>>
    decreases s.len(),
{
    if s.len() == 0 {
        seq![Seq::empty()]
    } else {
        let earlier = split_on(s.drop_last(), sep);
        if s.last() == sep {
            earlier.push(Seq::empty())
        } else {
            earlier.update(earlier.len() - 1, earlier.last().push(s.last()))
        }
    }
}

/// What chrono's `NaiveDate::parse_from_str` reads from `text` with `format`,
/// as year, month and day.
pub uninterp spec fn parsed_date(text: Seq<char>, format: Seq<char>) -> Option<(int, int, int)>;

/// Relies on `str::trim`: the text without leading and trailing White_Space.
#[verifier::external_body]
fn trim_text(s: &str) -> (r: String)
    ensures
        r@ == trimmed(s@),
{
    s.trim().to_owned()
}

/// Relies on `str::split` with a `char` pattern: the pieces between the
/// occurrences of the separator, in order.
#[verifier::external_body]
fn split_text(s: &str, sep: char) -> (r: Vec<String>)
    ensures
        r@.len() == split_on(s@, sep).len(),
        forall|i: int| 0 <= i < r@.len() ==> (#[trigger] r@[i])@ == split_on(s@, sep)[i],
{
    s.split(sep).map(|piece| piece.to_owned()).collect()
}

/// Relies on chrono's `NaiveDate::parse_from_str`: what it reads depends on the
/// text and the format alone, and a date it returns exists in the calendar.
#[verifier::external_body]
fn parse_date(text: &str, format: &str) -> (r: Option<(i32, u32, u32)>)
    ensures
        match r {
            Some((y, m, d)) => parsed_date(text@, format@) == Some((y as int, m as int, d as int))
                && is_calendar_date(y as int, m as int, d as int),
            None => parsed_date(text@, format@) is None,
        },
{
    match chrono::NaiveDate::parse_from_str(text, format) {
        Ok(date) => Some((date.year(), date.month(), date.day())),
        Err(_) => None,
    }
}

/// The contact that the fields of a line describe, given the birth date read
/// from its third field: surname, name, birth date, email and, in a fifth
/// field, a phone number. `None` for another number of fields, or where no
/// existing date was read.
pub open spec fn record_of(fields: Seq<Seq<char>>, birth: Option<(int, int, int)>) -> Option<FriendView> {
    match birth {
        Some((y, m, d)) => if (fields.len() == 4 || fields.len() == 5) && is_calendar_date(y, m, d) {
            Some(
                FriendView {
                    name: fields[1],
                    surname: fields[0],
                    birthdate: DateView { year: y, month: m, day: d },
                    email: fields[3],
                    phone_number: if fields.len() == 5 {
                        Some(fields[4])
                    } else {
                        None
                    },
                },
            )
        } else {
            None
        },
        None => None,
    }
}

/// The fields of a line, without surrounding white space.
pub open spec fn field_texts(line: Seq<char>) -> Seq<Seq<char>> {
    split_on(line, FIELD_SEPARATOR).map_values(|f: Seq<char>| trimmed(f))
}

/// The contact that a line describes, if it describes one.
pub open spec fn line_record(line: Seq<char>) -> Option<FriendView> {
    let fields = field_texts(line);
    if fields.len() == 4 || fields.len() == 5 {
        record_of(fields, parsed_date(fields[2], DATE_FORMAT@))
    } else {
        None
    }
}

/// The contacts that the lines after the header describe, in order, or the
/// index of the first line that describes none.
pub open spec fn records_of(lines: Seq<Seq<char>>) -> Result<Seq<FriendView>, int>
    decreases lines.len(),
{
    if lines.len() <= 1 {
        Ok(Seq::empty())
    } else {
        match records_of(lines.drop_last()) {
            Err(i) => Err(i),
            Ok(found) => match line_record(lines.last()) {
                Some(f) => Ok(found.push(f)),
                None => Err(lines.len() - 1),
            },
        }
    }
}

pub open spec fn optional_friend(f: Option<FriendData>) -> Option<FriendView> {
    match f {
        Some(x) => Some(x@),
        None => None,
    }
}

pub open spec fn text_views(texts: Seq<String>) -> Seq<Seq<char>> {
    texts.map_values(|t: String| t@)
}

/// The contact that `fields` describe, given the birth date read from the
/// third of them.
pub fn friend_from_fields(fields: &Vec<String>, birthdate: Option<(i32, u32, u32)>) -> (r: Option<
    FriendData,
>)
    ensures
        optional_friend(r) == record_of(
            text_views(fields@),
            match birthdate {
                Some((y, m, d)) => Some((y as int, m as int, d as int)),
                None => None,
            },
        ),
{
    if fields.len() != 4 && fields.len() != 5 {
        return None;
    }
    let (y, m, d) = match birthdate {
        Some(ymd) => ymd,
        None => {
            return None;
        },
    };
    let date = match Date::from_ymd_opt(y, m, d) {
        Some(date) => date,
        None => {
            return None;
        },
    };
    let phone_number = if fields.len() == 5 {
        Some(fields[4].clone())
    } else {
        None
    };
    let r = FriendData {
        name: fields[1].clone(),
        surname: fields[0].clone(),
        birthdate: date,
        email: fields[3].clone(),
        phone_number,
    };
    proof {
        let views = text_views(fields@);
        assert(views[0] == fields@[0]@);
        assert(views[1] == fields@[1]@);
        assert(views[3] == fields@[3]@);
        if fields@.len() == 5 {
            assert(views[4] == fields@[4]@);
        }
    }
    Some(r)
}

/// The contact that `line` describes, if it describes one.
pub fn parse_friend_line(line: &str) -> (r: Option<FriendData>)
    ensures
        optional_friend(r) == line_record(line@),
{
    let pieces = split_text(line, FIELD_SEPARATOR);
    let mut fields: Vec<String> = Vec::new();
    let mut i: usize = 0;
    while i < pieces.len()
        invariant
            i <= pieces@.len(),
            pieces@.len() == split_on(line@, FIELD_SEPARATOR).len(),
            forall|j: int|
                0 <= j < pieces@.len() ==> (#[trigger] pieces@[j])@ == split_on(
                    line@,
                    FIELD_SEPARATOR,
                )[j],
            fields@.len() == i,
            forall|j: int| 0 <= j < i ==> (#[trigger] fields@[j])@ == trimmed(pieces@[j]@),
        decreases pieces@.len() - i,
    {
        fields.push(trim_text(pieces[i].as_str()));
        i = i + 1;
    }
    proof {
        assert(text_views(fields@) =~= field_texts(line@));
    }
    if fields.len() != 4 && fields.len() != 5 {
        return None;
    }
    let birthdate = parse_date(fields[2].as_str(), DATE_FORMAT);
    proof {
        assert(text_views(fields@)[2] == fields@[2]@);
    }
    friend_from_fields(&fields, birthdate)
}

/// Once a line describes no contact, the roster stays refused at that line.
pub proof fn lemma_first_bad_line_stays(lines: Seq<Seq<char>>, k: int)
    requires
        0 <= k <= lines.len(),
        records_of(lines.subrange(0, k)) is Err,
    ensures
        records_of(lines) == records_of(lines.subrange(0, k)),
    decreases lines.len() - k,
{
    if k < lines.len() {
        let longer = lines.subrange(0, k + 1);
        assert(longer.drop_last() =~= lines.subrange(0, k));
        lemma_first_bad_line_stays(lines, k + 1);
    } else {
        assert(lines.subrange(0, k) =~= lines);
    }
}

/// The contacts of a roster given line by line, the first line being a header,
/// or the index of the first line that describes no contact.
pub fn parse_roster(lines: &Vec<String>) -> (r: Result<Vec<FriendData>, usize>)
    ensures
        match r {
            Ok(friends) => records_of(text_views(lines@)) == Ok::<Seq<FriendView>, int>(friend_views(friends@)),
            Err(i) => records_of(text_views(lines@)) == Err::<Seq<FriendView>, int>(i as int),
        },
{
    let ghost all = text_views(lines@);
    let mut friends: Vec<FriendData> = Vec::new();
    if lines.len() <= 1 {
        proof {
            assert(friend_views(friends@) =~= Seq::empty());
        }
        return Ok(friends);
    }
    let mut i: usize = 1;
    proof {
        assert(all.subrange(0, 1).len() == 1);
        assert(friend_views(friends@) =~= Seq::empty());
    }
    while i < lines.len()
        invariant
            1 <= i <= lines@.len(),
            all == text_views(lines@),
            records_of(all.subrange(0, i as int)) == Ok::<Seq<FriendView>, int>(friend_views(friends@)),
        decreases lines@.len() - i,
    {
        proof {
            assert(all.subrange(0, i + 1).drop_last() =~= all.subrange(0, i as int));
            assert(all.subrange(0, i + 1).last() == lines@[i as int]@);
        }
        match parse_friend_line(lines[i].as_str()) {
            Some(f) => {
                let ghost prior = friends@;
                friends.push(f);
                proof {
                    assert(friend_views(friends@) =~= friend_views(prior).push(friends@.last()@));
                }
            },
            None => {
                proof {
                    lemma_first_bad_line_stays(all, i + 1);
                }
                return Err(i);
            },
        }
        i = i + 1;
    }
    proof {
        assert(all.subrange(0, lines@.len() as int) =~= all);
    }
    Ok(friends)
}

} // verus!
