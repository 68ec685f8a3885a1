//! What the image downloader fetches, and what it keeps.

use vstd::prelude::*;
use crate::text::texts;

verus! {

/// The least size, in bytes, of an image that is kept.
pub const QUALIFYING_FLOOR: u64 = 4096;

/// What follows the last `/` of `url`; all of `url` where it has none.
pub open spec fn last_segment(url: Seq<char>) -> Seq<char>
    decreases url.len(),
{
    if url.len() == 0 || url.last() == '/' {
        Seq::empty()
    } else {
        last_segment(url.drop_last()).push(url.last())
    }
}

/// The last segment is the end of the address from `start` on, where no `/`
/// stands from `start` on and `start` is the address's beginning or follows
/// a `/`.
pub proof fn last_segment_is_tail(url: Seq<char>, start: int)
    requires
        0 <= start <= url.len(),
        forall|i: int| start <= i < url.len() ==> url[i] != '/',
        start == 0 || url[start - 1] == '/',
    ensures
        last_segment(url) == url.subrange(start, url.len() as int),
    decreases url.len(),
{
    if start == url.len() {
        assert(url.subrange(start, url.len() as int) =~= Seq::<char>::empty());
    } else {
        let front = url.drop_last();
        last_segment_is_tail(front, start);
        assert(front.subrange(start, front.len() as int).push(url.last()) =~= url.subrange(
            start,
            url.len() as int,
        ));
    }
}

/// The path of the file `name` in `folder`.
pub open spec fn path_in(folder: Seq<char>, name: Seq<char>) -> Seq<char> {
    folder + seq!['/'] + name
}

/// The name of the file that holds the image at `url`: the address's last
/// path segment, which may be empty.
pub fn file_name(url: &str) -> (name: String)
    ensures
        name@ == last_segment(url@),
{
    let len: usize = url.unicode_len();
    let mut start: usize = len;
    while start > 0 && url.get_char(start - 1) != '/'
        invariant
            start <= len,
            len == url@.len(),
            forall|i: int| start <= i < len ==> url@[i] != '/',
        decreases start,
    {
        start -= 1;
    }
    proof {
        last_segment_is_tail(url@, start as int);
    }
    String::from_str(url.substring_char(start, len))
}

/// The path of the file `name` in `folder`.
pub fn destination_path(folder: &str, name: &str) -> (path: String)
    ensures
        path@ == path_in(folder@, name@),
{
    proof {
        reveal_strlit("/");
        assert("/"@ =~= seq!['/']);
    }
    let mut path = String::from_str(folder);
    path.append("/");
    path.append(name);
    path
}

/// One image to fetch, and the file that it goes to.
#[derive(Debug)]
pub struct Download {
    pub url: String,
    pub path: String,
}

impl View for Download {
    type V = (Seq<char>, Seq<char>);

    open spec fn view(&self) -> (Seq<char>, Seq<char>) {
        (self.url@, self.path@)
    }
}

/// The download that `url` asks for, none where its last segment is empty.
pub open spec fn planned(url: Seq<char>, folder: Seq<char>) -> Option<(Seq<char>, Seq<char>)> {
    if last_segment(url).len() == 0 {
        None
    } else {
        Some((url, path_in(folder, last_segment(url))))
    }
}

/// The downloads that `urls` ask for, in order.
pub open spec fn planned_all(urls: Seq<Seq<char>>, folder: Seq<char>) -> Seq<(Seq<char>, Seq<char>)>
    decreases urls.len(),
{
    if urls.len() == 0 {
        Seq::empty()
    } else {
        match planned(urls.last(), folder) {
            Some(download) => planned_all(urls.drop_last(), folder).push(download),
            None => planned_all(urls.drop_last(), folder),
        }
    }
}

/// The views of a list of downloads.
pub open spec fn downloads_of(downloads: Seq<Download>) -> Seq<(Seq<char>, Seq<char>)> {
    Seq::new(downloads.len(), |i: int| downloads[i]@)
}

/// The view of an optional download.
pub open spec fn download_of(download: Option<Download>) -> Option<(Seq<char>, Seq<char>)> {
    match download {
        Some(d) => Some(d@),
        None => None,
    }
}

/// Plans the download of one image into `folder`. `None` where the address
/// ends in `/` or is empty: there is no file name to store it under, and the
/// image is skipped.
pub fn plan_download(url: &str, folder: &str) -> (download: Option<Download>)
    ensures
        download_of(download) == planned(url@, folder@),
{
    let name = file_name(url);
    if name.as_str().unicode_len() == 0 {
        None
    } else {
        let path = destination_path(folder, name.as_str());
        Some(Download { url: String::from_str(url), path })
    }
}

/// Plans the download of every image of `urls` into `folder`, in order,
/// leaving out those without a file name.
pub fn plan_downloads(urls: &Vec<String>, folder: &str) -> (downloads: Vec<Download>)
    ensures
        downloads_of(downloads@) == planned_all(texts(urls@), folder@),
{
    let mut downloads: Vec<Download> = Vec::new();
    let mut i: usize = 0;
    assert(downloads_of(downloads@) =~= planned_all(texts(urls@).take(0), folder@));
    while i < urls.len()
        invariant
            i <= urls.len(),
            downloads_of(downloads@) == planned_all(texts(urls@).take(i as int), folder@),
        decreases urls.len() - i,
    {
        let ghost before = downloads_of(downloads@);
        assert(texts(urls@).take(i + 1).drop_last() =~= texts(urls@).take(i as int));
        assert(texts(urls@).take(i + 1).last() == urls@[i as int]@);
        match plan_download(urls[i].as_str(), folder) {
            Some(download) => {
                downloads.push(download);
                assert(downloads_of(downloads@) =~= before.push(download@));
            },
            None => {},
        }
        i += 1;
    }
    assert(texts(urls@).take(i as int) =~= texts(urls@));
    downloads
}

/// What came back when an image was requested.
#[derive(Clone, Copy, Debug, PartialEq, Eq, Structural)]
pub enum Response {
    /// The request failed in transport.
    Failed,
    /// The response states the length of its body.
    Sized(u64),
    /// The response does not state the length of its body.
    Unsized,
}

/// What the downloader does with a response.
#[derive(Clone, Copy, Debug, PartialEq, Eq, Structural)]
pub enum Handling {
    /// Leave the image out: the request failed.
    Skip,
    /// Leave the image out: it is smaller than the floor.
    Discard,
    /// Write the body to the image's file, replacing a file of that name.
    Store,
    /// Read the whole body, then decide by its size with `judge_size`.
    Measure,
}

/// Whether an image of `size` bytes is large enough to keep.
pub open spec fn qualifies(size: u64) -> bool {
    size >= QUALIFYING_FLOOR
}

/// The handling of a body whose size is known.
pub open spec fn handling_of_size(size: u64) -> Handling {
    if qualifies(size) {
        Handling::Store
    } else {
        Handling::Discard
    }
}

/// The handling of a response.
pub open spec fn handling_of(response: Response) -> Handling {
    match response {
        Response::Failed => Handling::Skip,
        Response::Sized(size) => handling_of_size(size),
        Response::Unsized => Handling::Measure,
    }
}

/// Whether an image of `size` bytes is large enough to keep.
pub fn meets_floor(size: u64) -> (enough: bool)
    ensures
        enough == qualifies(size),
{
    size >= QUALIFYING_FLOOR
}

/// Decides what to do with a body of `size` bytes: store it where it meets
/// the floor, discard it otherwise.
pub fn judge_size(size: u64) -> (handling: Handling)
    ensures
        handling == handling_of_size(size),
{
    if meets_floor(size) {
        Handling::Store
    } else {
        Handling::Discard
    }
}

/// Decides what to do with the response to an image request. A failed
/// request is skipped; a stated length is held against the floor; without
/// one the body is to be read and measured first.
pub fn judge_response(response: Response) -> (handling: Handling)
    ensures
        handling == handling_of(response),
{
    match response {
        Response::Failed => Handling::Skip,
        Response::Sized(size) => judge_size(size),
        Response::Unsized => Handling::Measure,
    }
}

} // verus!
