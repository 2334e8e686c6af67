//! The bulk static archive: its routes table gives each route's display color.
use vstd::prelude::*;

use crate::cache::GTFSCache;
use crate::colors::{hex_color_form, is_hex_color};
use crate::model::{NVTError, NVTModels};

verus! {

/// Why one member of an in-memory archive could not be read.
#[derive(Clone, Copy, Debug, PartialEq, Eq, Structural)]
pub enum ArchiveFault {
    NotAnArchive,
    MissingMember,
    Unreadable,
}

/// Text of the member `name` of the zip archive `archive`, or why it cannot be had.
pub uninterp spec fn archive_member(archive: Seq<u8>, name: Seq<char>) -> Result<
    Seq<char>,
    ArchiveFault,
>;

/// Fields of each data record of a CSV text whose first record is its header,
/// leaving out the records that do not parse.
pub uninterp spec fn csv_records(text: Seq<char>) -> Seq<Seq<Seq<char>>>;

/// Relies on zip's `ZipArchive::new` and `ZipArchive::by_name`, and on reading
/// the member found to a string: the outcome depends on the bytes and the
/// name alone.
#[verifier::external_body]
fn read_archive_member(archive: &[u8], name: &str) -> (r: Result<String, ArchiveFault>)
    ensures
        match r {
            Ok(t) => archive_member(archive@, name@) == Ok::<Seq<char>, ArchiveFault>(t@),
            Err(f) => archive_member(archive@, name@) == Err::<Seq<char>, ArchiveFault>(f),
        },
{
    let cursor = std::io::Cursor::new(archive);
    let mut zip = zip::ZipArchive::new(cursor).map_err(|_| ArchiveFault::NotAnArchive)?;
    let mut member = zip.by_name(name).map_err(|_| ArchiveFault::MissingMember)?;
    let mut text = String::new();
    std::io::Read::read_to_string(&mut member, &mut text).map_err(|_| ArchiveFault::Unreadable)?;
    Ok(text)
}

/// Relies on csv's `Reader::from_reader` and `Reader::records`, headers on as
/// by default: the fields of each record that parses, in order.
#[verifier::external_body]
fn parse_csv(text: &str) -> (r: Vec<Vec<String>>)
    ensures
        r.deep_view() == csv_records(text@),
{
    let mut reader = csv::Reader::from_reader(text.as_bytes());
    reader.records().filter_map(|record| record.ok()).map(
        |record| record.iter().map(|field| field.to_string()).collect(),
    ).collect()
}

/// Column of the route identifier in the routes table.
pub const ROUTE_ID_COLUMN: usize = 0;

/// Column of the route color in the routes table.
pub const ROUTE_COLOR_COLUMN: usize = 5;

/// (route identifier, color) of each row whose color is six hexadecimal digits, in order.
pub open spec fn colors_of_rows(rows: Seq<Seq<Seq<char>>>) -> Seq<(Seq<char>, Seq<char>)>
    decreases rows.len(),
{
    if rows.len() == 0 {
        seq![]
    } else {
        let r = colors_of_rows(rows.drop_last());
        let row = rows.last();
        if row.len() > ROUTE_COLOR_COLUMN && is_hex_color(row[ROUTE_COLOR_COLUMN as int]) {
            r.push((row[ROUTE_ID_COLUMN as int], row[ROUTE_COLOR_COLUMN as int]))
        } else {
            r
        }
    }
}

/// The route colors and the stops table read from the bulk static archive.
#[derive(Clone, Debug)]
pub struct RouteArchive {
    pub colors: Vec<(String, String)>,
    pub stops_table: Option<String>,
}

impl NVTModels {
    /// (route identifier, color) of each routes-table row whose color is six
    /// hexadecimal digits.
    pub fn route_colors_from_rows(rows: &Vec<Vec<String>>) -> (r: Vec<(String, String)>)
        ensures
            r.deep_view() == colors_of_rows(rows.deep_view()),
    {
        let ghost rs = rows.deep_view();
        let mut r: Vec<(String, String)> = Vec::new();
        let mut i: usize = 0;
        while i < rows.len()
            invariant
                i <= rows.len(),
                rs == rows.deep_view(),
                r.deep_view() == colors_of_rows(rs.take(i as int)),
            decreases rows.len() - i,
        {
            assert(rs.take(i as int + 1).drop_last() =~= rs.take(i as int));
            let row = &rows[i];
            assert(row.deep_view() == rs[i as int]);
            if row.len() > ROUTE_COLOR_COLUMN && hex_color_form(row[ROUTE_COLOR_COLUMN].as_str()) {
                let ghost before = r.deep_view();
                r.push((row[ROUTE_ID_COLUMN].clone(), row[ROUTE_COLOR_COLUMN].clone()));
                assert(r.deep_view() =~= before.push(
                    (rs[i as int][ROUTE_ID_COLUMN as int], rs[i as int][ROUTE_COLOR_COLUMN as int]),
                ));
            }
            i += 1;
        }
        assert(rs.take(rows.len() as int) =~= rs);
        r
    }

    /// Route colors of a routes table in CSV.
    pub fn route_colors_from_table(text: &str) -> (r: Vec<(String, String)>)
        ensures
            r.deep_view() == colors_of_rows(csv_records(text@)),
    {
        let rows = parse_csv(text);
        Self::route_colors_from_rows(&rows)
    }

    /// Route colors from the routes table of the bulk static archive, and the
    /// text of its stops table where it has one. An archive that does not open
    /// is a parse error; one without a readable routes table, a file error.
    pub fn read_route_archive(archive: &[u8]) -> (r: Result<RouteArchive, NVTError>)
        ensures
            archive_member(archive@, "routes.txt"@) == Err::<Seq<char>, ArchiveFault>(
                ArchiveFault::NotAnArchive,
            ) ==> r matches Err(NVTError::ParseError(_)),
            archive_member(archive@, "routes.txt"@) is Err && archive_member(
                archive@,
                "routes.txt"@,
            ) != Err::<Seq<char>, ArchiveFault>(ArchiveFault::NotAnArchive) ==> r matches Err(
                NVTError::FileError(_),
            ),
            archive_member(archive@, "routes.txt"@) is Ok ==> (r matches Ok(a) && {
                &&& a.colors.deep_view() == colors_of_rows(
                    csv_records(archive_member(archive@, "routes.txt"@)->Ok_0),
                )
                &&& match a.stops_table {
                    Some(t) => archive_member(archive@, "stops.txt"@) == Ok::<
                        Seq<char>,
                        ArchiveFault,
                    >(t@),
                    None => archive_member(archive@, "stops.txt"@) is Err,
                }
            }),
    {
        let routes = match read_archive_member(archive, "routes.txt") {
            Ok(t) => t,
            Err(ArchiveFault::NotAnArchive) => {
                return Err(NVTError::ParseError("Failed to open GTFS zip archive".to_owned()));
            },
            Err(_) => {
                return Err(NVTError::FileError("routes.txt not found in GTFS archive".to_owned()));
            },
        };
        let stops_table = match read_archive_member(archive, "stops.txt") {
            Ok(t) => Some(t),
            Err(_) => None,
        };
        Ok(RouteArchive { colors: Self::route_colors_from_table(routes.as_str()), stops_table })
    }

    /// The route colors of the persisted cache, when it was read and is not
    /// expired at instant `now`; otherwise they must be downloaded.
    pub fn load_line_colors(read: Option<GTFSCache>, now: u64) -> (r: Option<Vec<(String, String)>>)
        ensures
            r == (match read {
                Some(c) => if c.expired_at(now) {
                    None
                } else {
                    Some(c.routes)
                },
                None => None,
            }),
    {
        match GTFSCache::load(read, now) {
            Some(c) => Some(c.routes),
            None => None,
        }
    }
}

} // verus!
