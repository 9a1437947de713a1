//! Results of persisting metadata tag assignments and removals.
//!
//! Paths are held as their UTF-8 text.
use vstd::prelude::*;

verus! {

/// Tags to assign to, or remove from, one file.
#[derive(Clone, Debug, PartialEq, Eq)]
pub struct MetadataTagPersistRequest {
    pub absolute_path: String,
    pub source_root: String,
    pub source_database_root: String,
    pub relative_path: String,
    pub tags: Vec<String>,
    pub assigned: bool,
}

/// What a persistence run reports: the tags it was about, whether they were assigned, and
/// how the writes went.
#[derive(Debug, PartialEq, Eq)]
pub struct MetadataTagPersistResult {
    pub tags: Vec<String>,
    pub assigned: bool,
    pub result: Result<(), String>,
}

pub open spec fn tag_texts(tags: Seq<String>) -> Seq<Seq<char>> {
    tags.map_values(|tag: String| tag@)
}

/// Every tag of every request, in order.
pub open spec fn request_tags(requests: Seq<MetadataTagPersistRequest>) -> Seq<Seq<char>>
    decreases requests.len(),
{
    if requests.len() == 0 {
        Seq::empty()
    } else {
        request_tags(requests.drop_last()) + tag_texts(requests.last().tags@)
    }
}

/// `tags` without repeats, each tag where it first occurs.
pub open spec fn first_occurrences(tags: Seq<Seq<char>>) -> Seq<Seq<char>>
    decreases tags.len(),
{
    if tags.len() == 0 {
        Seq::empty()
    } else {
        let earlier = first_occurrences(tags.drop_last());
        if earlier.contains(tags.last()) {
            earlier
        } else {
            earlier.push(tags.last())
        }
    }
}

fn contains_text(tags: &Vec<String>, tag: &String) -> (found: bool)
    ensures
        found == tag_texts(tags@).contains(tag@),
{
    let mut i: usize = 0;
    while i < tags.len()
        invariant
            i <= tags@.len(),
            forall|k: int| 0 <= k < i ==> tags@[k]@ != tag@,
        decreases tags@.len() - i,
    {
        if tags[i] == *tag {
            assert(tag_texts(tags@)[i as int] == tag@);
            return true;
        }
        i = i + 1;
    }
    proof {
        if tag_texts(tags@).contains(tag@) {
            let k = tag_texts(tags@).index_of(tag@);
            assert(tags@[k]@ == tag@);
        }
    }
    false
}

/// The tags of all requests, each once, in the order in which they first occur.
pub fn unique_request_tags(requests: &Vec<MetadataTagPersistRequest>) -> (tags: Vec<String>)
    ensures
        tag_texts(tags@) == first_occurrences(request_tags(requests@)),
{
    let mut tags: Vec<String> = Vec::new();
    let mut i: usize = 0;
    while i < requests.len()
        invariant
            i <= requests@.len(),
            tag_texts(tags@) == first_occurrences(request_tags(requests@.subrange(0, i as int))),
        decreases requests@.len() - i,
    {
        let request = &requests[i];
        let ghost done = request_tags(requests@.subrange(0, i as int));
        let mut j: usize = 0;
        while j < request.tags.len()
            invariant
                i < requests@.len(),
                *request == requests@[i as int],
                j <= request.tags@.len(),
                tag_texts(tags@) == first_occurrences(
                    done + tag_texts(request.tags@).subrange(0, j as int),
                ),
            decreases request.tags@.len() - j,
        {
            let tag = &request.tags[j];
            let ghost seen = done + tag_texts(request.tags@).subrange(0, j as int);
            let ghost next = done + tag_texts(request.tags@).subrange(0, j + 1);
            assert(next.drop_last() =~= seen);
            assert(next.last() == tag@);
            if !contains_text(&tags, tag) {
                let ghost before = tags@;
                tags.push(tag.clone());
                assert(tag_texts(tags@) =~= tag_texts(before).push(tag@));
            }
            j = j + 1;
        }
        proof {
            let upto = requests@.subrange(0, i + 1);
            assert(upto.drop_last() =~= requests@.subrange(0, i as int));
            assert(upto.last() == requests@[i as int]);
            assert(tag_texts(request.tags@).subrange(0, request.tags@.len() as int) =~= tag_texts(
                request.tags@,
            ));
        }
        i = i + 1;
    }
    proof {
        assert(requests@.subrange(0, requests@.len() as int) =~= requests@);
    }
    tags
}

/// The report of assigning one request's tags.
pub fn assignment_result(request: MetadataTagPersistRequest, result: Result<(), String>) -> (report:
    MetadataTagPersistResult)
    ensures
        report.tags@ == request.tags@,
        report.assigned == request.assigned,
        report.result == result,
{
    MetadataTagPersistResult { tags: request.tags, assigned: request.assigned, result }
}

/// The report of assigning the tags of several requests: every tag once, assigned.
pub fn assignments_result(requests: &Vec<MetadataTagPersistRequest>, result: Result<(), String>) -> (report:
    MetadataTagPersistResult)
    ensures
        tag_texts(report.tags@) == first_occurrences(request_tags(requests@)),
        report.assigned,
        report.result == result,
{
    MetadataTagPersistResult { tags: unique_request_tags(requests), assigned: true, result }
}

fn copy_tags(tags: &Vec<String>) -> (copy: Vec<String>)
    ensures
        copy@ == tags@,
{
    let mut copy: Vec<String> = Vec::new();
    let mut i: usize = 0;
    while i < tags.len()
        invariant
            i <= tags@.len(),
            copy@ == tags@.subrange(0, i as int),
        decreases tags@.len() - i,
    {
        copy.push(tags[i].clone());
        i = i + 1;
    }
    copy
}

/// The report of removing the tags of several requests: the tags of the first request (none
/// when there is no request), removed.
pub fn deletions_result(requests: &Vec<MetadataTagPersistRequest>, result: Result<(), String>) -> (report:
    MetadataTagPersistResult)
    ensures
        requests@.len() > 0 ==> report.tags@ == requests@[0].tags@,
        requests@.len() == 0 ==> report.tags@.len() == 0,
        !report.assigned,
        report.result == result,
{
    let tags = if requests.len() > 0 {
        copy_tags(&requests[0].tags)
    } else {
        Vec::new()
    };
    MetadataTagPersistResult { tags, assigned: false, result }
}

/// The unique tags hold no tag twice and hold exactly the tags that occur.
pub proof fn lemma_first_occurrences_are_unique(tags: Seq<Seq<char>>)
    ensures
        first_occurrences(tags).no_duplicates(),
        forall|tag: Seq<char>| #[trigger] first_occurrences(tags).contains(tag) <==> tags.contains(tag),
    decreases tags.len(),
{
    if tags.len() > 0 {
        let earlier = tags.drop_last();
        lemma_first_occurrences_are_unique(earlier);
        let last = tags.last();
        let before = first_occurrences(earlier);
        assert(earlier.push(last) =~= tags);
        assert forall|tag: Seq<char>| #[trigger] first_occurrences(tags).contains(tag) <==> tags.contains(tag) by {
            if first_occurrences(tags).contains(tag) {
                if before.contains(tag) {
                    let k = earlier.index_of(tag);
                    assert(tags[k] == tag);
                } else {
                    assert(tag == last);
                    assert(tags[tags.len() - 1] == tag);
                }
            }
            if tags.contains(tag) {
                let k = tags.index_of(tag);
                if k < tags.len() - 1 {
                    assert(earlier[k] == tag);
                    assert(before.contains(tag));
                    if !before.contains(last) {
                        let m = before.index_of(tag);
                        assert(before.push(last)[m] == tag);
                    }
                } else {
                    assert(tag == last);
                    if !before.contains(last) {
                        assert(before.push(last)[before.len() as int] == tag);
                    }
                }
            }
        }
    }
}

} // verus!
