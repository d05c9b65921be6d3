//! Whether a published release is an update of the running application.

use vstd::prelude::*;
use vstd::string::{StrSliceExecFns, StringExecFns};

verus! {

/// What the application tells the user about the latest release.
#[derive(Debug, PartialEq, Eq)]
pub struct UpdateInfo {
    pub update_available: bool,
    pub latest_version: String,
    pub url: String,
}

/// `tag` without the letters `v` that it starts with.
pub open spec fn without_v(tag: Seq<char>) -> Seq<char>
    decreases tag.len(),
{
    if tag.len() > 0 && tag[0] == 'v' {
        without_v(tag.skip(1))
    } else {
        tag
    }
}

/// Skipping the first `k` characters of `tag`, all of them `v`, does not
/// change what is left without them.
proof fn lemma_without_v(tag: Seq<char>, k: int)
    requires
        0 <= k <= tag.len(),
        forall|i: int| 0 <= i < k ==> tag[i] == 'v',
    ensures
        without_v(tag) == without_v(tag.skip(k)),
    decreases k,
{
    if k == 0 {
        assert(tag.skip(0) =~= tag);
    } else {
        lemma_without_v(tag, k - 1);
        assert(tag.skip(k - 1).skip(1) =~= tag.skip(k));
    }
}

/// The version that a release tag names: the tag without its leading `v`.
pub fn version_of_tag(tag_name: &str) -> (version: String)
    ensures
        version@ == without_v(tag_name@),
{
    let len = tag_name.unicode_len();
    let mut k: usize = 0;
    loop
        invariant
            k <= len == tag_name@.len(),
            forall|i: int| 0 <= i < k ==> tag_name@[i] == 'v',
        ensures
            k == len || tag_name@[k as int] != 'v',
        decreases len - k,
    {
        if k == len {
            break ;
        }
        if tag_name.get_char(k) != 'v' {
            break ;
        }
        k += 1;
    }
    proof {
        lemma_without_v(tag_name@, k as int);
        assert(tag_name@.subrange(k as int, len as int) =~= tag_name@.skip(k as int));
    }
    String::from_str(tag_name.substring_char(k, len))
}

/// What to tell the user about the release tagged `tag_name`, published at
/// `html_url`, when the running application has version `current_version`:
/// an update is available unless the tag names that very version.
pub fn release_info(tag_name: &str, html_url: String, current_version: &str) -> (info: UpdateInfo)
    ensures
        info.latest_version@ == without_v(tag_name@),
        info.update_available == (without_v(tag_name@) != current_version@),
        info.url == html_url,
{
    let latest_version = version_of_tag(tag_name);
    let current = String::from_str(current_version);
    let same = latest_version == current;
    UpdateInfo { update_available: !same, latest_version, url: html_url }
}

/// The message for a release service that answered with `status` and no
/// release.
pub open spec fn failure_text(status: Seq<char>) -> Seq<char> {
    "Failed to fetch updates: "@ + status
}

/// The message for a release service that answered with `status` and no
/// release.
pub fn fetch_failure(status: &str) -> (message: String)
    ensures
        message@ == failure_text(status@),
{
    let mut message = String::from_str("Failed to fetch updates: ");
    message.append(status);
    message
}

/// The text that `reqwest::StatusCode` prints for the status with the number
/// `code`; for a number that is no status, the text of the error that
/// `reqwest::StatusCode::from_u16` returns for it.
pub uninterp spec fn status_text(code: u16) -> Seq<char>;

/// Calls `reqwest::StatusCode::from_u16` and, on the status, `is_success`.
/// Claims that the status is a success for the numbers from 200 to 299 and for
/// no other; a number that is no status is no success.
#[verifier::external_body]
fn status_is_success(code: u16) -> (success: bool)
    ensures
        success == (200 <= code < 300),
{
    match reqwest::StatusCode::from_u16(code) {
        Ok(status) => status.is_success(),
        Err(_) => false,
    }
}

/// Calls `reqwest::StatusCode::from_u16` and prints the status, or the error
/// where the number is no status. Claims only that the text depends on the
/// number alone.
#[verifier::external_body]
fn status_to_string(code: u16) -> (text: String)
    ensures
        text@ == status_text(code),
{
    match reqwest::StatusCode::from_u16(code) {
        Ok(status) => status.to_string(),
        Err(error) => error.to_string(),
    }
}

/// Whether the release service answered with a release: `Ok` for a status
/// from 200 to 299, and for any other the message that names the status.
pub fn check_status(code: u16) -> (checked: Result<(), String>)
    ensures
        checked is Ok <==> 200 <= code < 300,
        checked matches Err(message) ==> message@ == failure_text(status_text(code)),
{
    if status_is_success(code) {
        Ok(())
    } else {
        let status = status_to_string(code);
        Err(fetch_failure(status.as_str()))
    }
}

} // verus!
