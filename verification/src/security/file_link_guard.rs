//! A guard against files that are reached by several paths.
//!
//! A file with several hard links gets around guards that go by its path: a path inside
//! a workspace may lead to content outside of it.

use crate::lists;
use crate::system;
use crate::text;
use vstd::prelude::*;

verus! {

/// What the system tells of the links of a file.
#[derive(Debug)]
pub enum LinkReport {
    /// The number of links in the file's metadata, or `None` where it has none.
    Metadata(Option<u64>),
    /// Whether a command that lists the file's paths, one on each line, succeeded, and
    /// what it wrote. It fails where there are no hard links.
    Listing(bool, Vec<u8>),
    /// The command could not be run, or the system does not tell.
    Unknown,
}

/// The lines of a listing, but for blank ones.
pub open spec fn listed_paths(listing: Seq<char>) -> Seq<Seq<char>> {
    text::line_seq(listing).filter(|line: Seq<char>| text::trimmed(line).len() > 0)
}

/// How many links a listing tells of: at least the one by which the file was found.
pub open spec fn listed_links(listing: Seq<char>) -> nat {
    if listed_paths(listing).len() > 1 {
        listed_paths(listing).len()
    } else {
        1
    }
}

/// How many links a file has. Where the system does not tell, it has one.
pub open spec fn links_of(report: LinkReport) -> nat {
    match report {
        LinkReport::Metadata(Some(links)) => links as nat,
        LinkReport::Listing(true, bytes) => listed_links(system::lossy_text(bytes@)),
        _ => 1,
    }
}

/// How many links a listing tells of.
pub fn count_listed(listing: &str) -> (links: u64)
    ensures
        links as nat == listed_links(listing@),
{
    let lines = text::lines(listing);
    let ghost whole = lines.deep_view();
    let ghost pred = |line: Seq<char>| text::trimmed(line).len() > 0;
    let mut count: usize = 0;
    let mut i: usize = 0;
    assert(whole.take(0).filter(pred) =~= Seq::<Seq<char>>::empty()) by {
        lists::filter_none(whole.take(0), pred);
    }
    while i < lines.len()
        invariant
            count <= i <= lines.len(),
            whole == lines.deep_view(),
            pred == (|line: Seq<char>| text::trimmed(line).len() > 0),
            count == whole.take(i as int).filter(pred).len(),
        decreases lines.len() - i,
    {
        proof {
            assert(whole.take(i + 1) =~= whole.take(i as int).push(whole[i as int]));
            lists::filter_push(whole.take(i as int), whole[i as int], pred);
        }
        if !text::is_blank(lines[i].as_str()) {
            count += 1;
        }
        i += 1;
    }
    assert(whole.take(i as int) =~= whole);
    if count > 1 {
        count as u64
    } else {
        1
    }
}

/// How many links a file has.
pub fn link_count(report: &LinkReport) -> (links: u64)
    ensures
        links as nat == links_of(*report),
{
    match report {
        LinkReport::Metadata(Some(links)) => *links,
        LinkReport::Listing(true, bytes) => {
            let listing = system::decode_lossy(bytes.as_slice());
            count_listed(listing.as_str())
        },
        _ => 1,
    }
}

/// Whether a file has more than one hard link.
pub fn has_multiple_hard_links(report: &LinkReport) -> (yes: bool)
    ensures
        yes == (links_of(*report) > 1),
{
    link_count(report) > 1
}

/// A file whose links are not known is not held to have several.
pub proof fn unknown_links_are_one(report: LinkReport)
    requires
        report matches LinkReport::Metadata(links) ==> links is None,
        report matches LinkReport::Listing(success, bytes) ==> !success,
    ensures
        links_of(report) == 1,
{
}

/// A listing tells of one path for each line that holds more than white space.
pub proof fn every_listed_path_counts(listing: Seq<char>, line: Seq<char>)
    requires
        listing.len() == 0 || listing.last() == '\n',
        !line.contains('\n'),
    ensures
        listed_paths(Seq::<char>::empty()).len() == 0,
        listed_paths(listing + line.push('\n')).len() == listed_paths(listing).len() + (
        if text::all_white(line) {
            0int
        } else {
            1
        }),
        listed_paths(listing + line).len() == listed_paths(listing + line.push('\n')).len(),
{
    let pred = |l: Seq<char>| text::trimmed(l).len() > 0;
    lists::filter_none(Seq::<Seq<char>>::empty(), pred);
    assert(text::line_seq(Seq::<char>::empty()) =~= Seq::<Seq<char>>::empty());
    let bare = text::without_return(line);
    text::lines_follow_lines(listing, line.push('\n'));
    text::written_line_is_read(line);
    assert(text::line_seq(listing + line.push('\n')) =~= text::line_seq(listing).push(bare));
    lists::filter_push(text::line_seq(listing), bare, pred);
    text::return_is_trimmed(line);
    text::blank_is_all_white(line);
    text::lines_follow_lines(listing, line);
    text::unfinished_line_is_read(line);
    if line.len() == 0 {
        assert(text::line_seq(listing + line) =~= text::line_seq(listing));
    } else {
        assert(text::line_seq(listing + line) =~= text::line_seq(listing).push(line));
        lists::filter_push(text::line_seq(listing), line, pred);
    }
}

/// A listing tells of as many links as paths, and of one where it has none.
pub proof fn listing_tells_of_its_paths(listing: Seq<char>)
    ensures
        listed_paths(listing).len() > 0 ==> listed_links(listing) == listed_paths(listing).len(),
        listed_paths(listing).len() == 0 ==> listed_links(listing) == 1,
{
}

/// The metadata of a file tell the number of its links, and a listing that succeeded tells it
/// by its text.
pub proof fn report_tells_the_links(links: u64, bytes: Vec<u8>)
    ensures
        links_of(LinkReport::Metadata(Some(links))) == links,
        links_of(LinkReport::Listing(true, bytes)) == listed_links(system::lossy_text(bytes@)),
        links_of(LinkReport::Listing(false, bytes)) == 1,
{
}

} // verus!
