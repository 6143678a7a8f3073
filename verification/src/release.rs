//! The loader's latest release: what the version service answers, and
//! where the archive of a release is downloaded from.

use vstd::prelude::*;
use crate::error::InstallError;
use crate::text::{append_chars, chars_of, string_from, view_of};

verus! {

/// The address of the version service.
pub const GEODE_API_URL: &'static str = "https://api.geode-sdk.org/v1/loader/versions/latest";

/// The address under which the releases lie.
pub const GEODE_GITHUB_URL: &'static str = "https://github.com/geode-sdk/geode/releases/download";

/// What the version service answered: an error that it reports, if any,
/// and the tag of the latest version, if it names one.
#[derive(Debug, Clone, PartialEq, Eq)]
pub struct RemoteVersionDescriptor {
    pub error: Option<String>,
    pub tag: Option<String>,
}

/// What `serde_json` reads in `body`. Where `body` is JSON: the text of the
/// member `error`, if the document is an object that has one and it is a
/// string, and likewise the text of the member `tag` of the member
/// `payload`. Where `body` is no JSON: the parser's words for what is wrong.
pub uninterp spec fn decoded(body: Seq<char>) -> Result<
    (Option<Seq<char>>, Option<Seq<char>>),
    Seq<char>,
>;

/// `serde_json::from_str` on `body`, read as a `serde_json::Value`, and of
/// the value the strings at `["error"]` and at `["payload"]["tag"]`. The
/// result is the one that `decoded` names; nothing else is claimed of it.
#[verifier::external_body]
fn decode(body: &str) -> (read: Result<RemoteVersionDescriptor, String>)
    ensures
        match read {
            Ok(descriptor) => decoded(body@) == Ok::<_, Seq<char>>(
                (view_of(descriptor.error), view_of(descriptor.tag)),
            ),
            Err(why) => decoded(body@) == Err::<(Option<Seq<char>>, Option<Seq<char>>), _>(why@),
        },
{
    match serde_json::from_str::<serde_json::Value>(body) {
        Ok(json) => Ok(
            RemoteVersionDescriptor {
                error: json["error"].as_str().map(String::from),
                tag: json["payload"]["tag"].as_str().map(String::from),
            },
        ),
        Err(why) => Err(why.to_string()),
    }
}

/// Whether `result` is the outcome that an answer read as `read` calls
/// for: a body that is no JSON is a bad response; an error that the
/// service reports, unless it is empty, is that error; else the tag is the
/// result, and an answer without a tag is a failure of its own.
pub open spec fn tag_outcome(
    read: Result<(Option<Seq<char>>, Option<Seq<char>>), Seq<char>>,
    result: Result<String, InstallError>,
) -> bool {
    match read {
        Err(why) => result matches Err(InstallError::BadResponse(text)) && text@ == why,
        Ok((error, tag)) => if error is Some && error.unwrap().len() > 0 {
            result matches Err(InstallError::Service(text)) && text@ == error.unwrap()
        } else {
            match tag {
                Some(name) => result matches Ok(text) && text@ == name,
                None => result == Err::<String, _>(InstallError::MissingTag),
            }
        },
    }
}

/// The view of what was read.
pub open spec fn read_view(read: Result<RemoteVersionDescriptor, String>) -> Result<
    (Option<Seq<char>>, Option<Seq<char>>),
    Seq<char>,
> {
    match read {
        Ok(descriptor) => Ok((view_of(descriptor.error), view_of(descriptor.tag))),
        Err(why) => Err(why@),
    }
}

/// The tag of the latest version, from what was read of the service's
/// answer.
pub fn tag_of(read: Result<RemoteVersionDescriptor, String>) -> (result: Result<
    String,
    InstallError,
>)
    ensures
        tag_outcome(read_view(read), result),
{
    match read {
        Err(why) => Err(InstallError::BadResponse(why)),
        Ok(descriptor) => {
            match descriptor.error {
                Some(error) => {
                    if error.as_str().unicode_len() > 0 {
                        return Err(InstallError::Service(error));
                    }
                },
                None => {},
            }
            match descriptor.tag {
                Some(tag) => Ok(tag),
                None => Err(InstallError::MissingTag),
            }
        },
    }
}

/// The tag of the latest version, from the body of the service's answer.
pub fn fetch_latest_tag(body: &str) -> (result: Result<String, InstallError>)
    ensures
        tag_outcome(decoded(body@), result),
{
    tag_of(decode(body))
}

/// The address of the archive of the release `tag`.
pub open spec fn download_url(tag: Seq<char>) -> Seq<char> {
    GEODE_GITHUB_URL@ + "/"@ + tag + "/geode-"@ + tag + "-win.zip"@
}

/// The address of the archive of the release `tag`: the tag stands in it
/// twice, as a directory and in the file's name.
pub fn build_download_url(tag: &str) -> (url: String)
    ensures
        url@ == download_url(tag@),
{
    let tag_chars = chars_of(tag);
    let mut url = chars_of(GEODE_GITHUB_URL);
    append_chars(&mut url, &chars_of("/"));
    append_chars(&mut url, &tag_chars);
    append_chars(&mut url, &chars_of("/geode-"));
    append_chars(&mut url, &tag_chars);
    append_chars(&mut url, &chars_of("-win.zip"));
    string_from(&url)
}

/// The address of the archive of the latest release, from the body of the
/// version service's answer.
pub fn get_download_url(body: &str) -> (result: Result<String, InstallError>)
    ensures
        match result {
            Ok(url) => exists|tag: String|
                tag_outcome(decoded(body@), Ok(tag)) && url@ == download_url(tag@),
            Err(error) => tag_outcome(decoded(body@), Err(error)),
        },
{
    match fetch_latest_tag(body) {
        Ok(tag) => Ok(build_download_url(tag.as_str())),
        Err(error) => Err(error),
    }
}

} // verus!
