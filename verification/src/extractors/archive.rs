//! The listing of a ZIP archive read from its bytes, and how much of it is
//! kept in its metadata.
use crate::error::AlexandriaError;
use crate::text::opt_view;
use vstd::prelude::*;

verus! {

/// The most entries of an archive that are listed.
pub const MAX_LISTED_ENTRIES: usize = 50;

/// The number of entries listed for an archive of `total` entries: the
/// first 50 at most.
pub fn listed_entries(total: usize) -> (r: usize)
    ensures
        r == (if total < 50 {
            total
        } else {
            50
        }),
{
    if total < MAX_LISTED_ENTRIES {
        total
    } else {
        MAX_LISTED_ENTRIES
    }
}

/// Whether the listing of an archive of `total` entries leaves some out.
pub fn listing_truncated(total: usize) -> (r: bool)
    ensures
        r == (total > 50),
{
    total > MAX_LISTED_ENTRIES
}

/// Name for what `zip` reads of the archive held in `bytes`: for each of
/// its entries, in order, the entry's name when `ZipArchive::by_index` can
/// open it (it cannot, for instance, when the entry is encrypted or stored
/// with a method this build does not read); or the displayed error when
/// `ZipArchive::new` cannot read the bytes as an archive.
pub uninterp spec fn zip_entries_of(bytes: Seq<u8>) -> Result<Seq<Option<Seq<char>>>, Seq<char>>;

/// The text of each optional name.
pub open spec fn opt_views(v: Seq<Option<String>>) -> Seq<Option<Seq<char>>> {
    v.map_values(|o: Option<String>| opt_view(o))
}

/// The smaller of two counts.
pub open spec fn min_count(a: nat, b: nat) -> nat {
    if a < b {
        a
    } else {
        b
    }
}

/// Calls `zip::ZipArchive::new` on a cursor over the bytes, then
/// `ZipArchive::len` and, for each of the first `first` entries,
/// `ZipArchive::by_index` and `ZipFile::name`. The contract claims that the
/// number of entries and those names are the ones `zip_entries_of` names,
/// and that an error gives its displayed text.
#[verifier::external_body]
fn zip_entries(bytes: &[u8], first: usize) -> (r: Result<(usize, Vec<Option<String>>), String>)
    ensures
        match (r, zip_entries_of(bytes@)) {
            (Ok((n, names)), Ok(all)) => n == all.len() && opt_views(names@) == all.take(
                min_count(first as nat, all.len()) as int,
            ),
            (Err(m), Err(e)) => m@ == e,
            _ => false,
        },
{
    match zip::ZipArchive::new(std::io::Cursor::new(bytes)) {
        Ok(mut a) => {
            let n = a.len();
            let names = (0..n).take(first).map(|i| a.by_index(i).ok().map(|e| e.name().to_string()));
            Ok((n, names.collect()))
        },
        Err(e) => Err(e.to_string()),
    }
}

/// The names among `v`, in order.
pub open spec fn present_names(v: Seq<Option<Seq<char>>>) -> Seq<Seq<char>>
    decreases v.len(),
{
    if v.len() == 0 {
        Seq::empty()
    } else {
        let rest = present_names(v.drop_last());
        match v.last() {
            Some(n) => rest.push(n),
            None => rest,
        }
    }
}

/// The text of each name.
pub open spec fn name_views(v: Seq<String>) -> Seq<Seq<char>> {
    v.map_values(|s: String| s@)
}

/// What is kept of an archive's listing.
#[derive(Debug, Clone)]
pub struct ZipListing {
    /// The number of entries of the archive.
    pub file_count: usize,
    /// The names of those of the first 50 entries that can be opened.
    pub entries: Vec<String>,
    /// Whether the archive has more than 50 entries.
    pub truncated: bool,
}

/// The listing of the ZIP archive held in `bytes`: its number of entries,
/// the names of those of its first 50 entries that can be opened, in order,
/// and whether it has more than 50 entries; an `Other` error with the
/// reader's message when the bytes are not an archive.
pub fn zip_listing(bytes: &[u8]) -> (r: Result<ZipListing, AlexandriaError>)
    ensures
        match zip_entries_of(bytes@) {
            Ok(all) => r matches Ok(l) && l.file_count == all.len() && name_views(l.entries@)
                == present_names(all.take(min_count(50, all.len()) as int)) && l.truncated == (
            all.len() > 50),
            Err(m) => r matches Err(AlexandriaError::Other(msg)) && msg@ == m,
        },
{
    match zip_entries(bytes, MAX_LISTED_ENTRIES) {
        Err(m) => Err(AlexandriaError::Other(m)),
        Ok((n, names)) => {
            let ghost listed = opt_views(names@);
            let mut entries: Vec<String> = Vec::new();
            let mut i: usize = 0;
            while i < names.len()
                invariant
                    i <= names.len(),
                    listed == opt_views(names@),
                    name_views(entries@) == present_names(listed.take(i as int)),
                decreases names.len() - i,
            {
                assert(listed.take(i + 1).drop_last() =~= listed.take(i as int));
                match &names[i] {
                    Some(name) => {
                        let ghost before = entries@;
                        entries.push(name.clone());
                        assert(name_views(entries@) =~= name_views(before).push(name@));
                    },
                    None => {},
                }
                i += 1;
            }
            assert(listed.take(names.len() as int) =~= listed);
            Ok(ZipListing { file_count: n, entries, truncated: listing_truncated(n) })
        },
    }
}

} // verus!
