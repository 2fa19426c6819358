//! Bounded, verified archive downloads.

use vstd::prelude::*;
use crate::digest::{check_content, content_matches, digest_bound, digestible, ContentDigest};
use crate::digest::{sha256, MAX_DIGEST_BYTES};
use crate::manifest::{ArtifactError, ArtifactSpec};
use crate::number::hex;
use crate::text::same_text;

verus! {

/// The parts of an address that decide where a request goes.
#[derive(Debug)]
pub struct UrlParts {
    /// Scheme in lower case.
    pub scheme: String,
    /// Host, where the address has one.
    pub host: Option<String>,
}

/// Scheme and host that `reqwest::Url::parse` reads from an address; `None` where it reads none.
pub uninterp spec fn parsed_url(text: Seq<char>) -> Option<(Seq<char>, Option<Seq<char>>)>;

/// The view of an optional host.
pub open spec fn host_view(host: Option<String>) -> Option<Seq<char>> {
    match host {
        Some(host) => Some(host@),
        None => None,
    }
}

/// The view of parts.
pub open spec fn parts_view(parts: Option<UrlParts>) -> Option<(Seq<char>, Option<Seq<char>>)> {
    match parts {
        Some(parts) => Some((parts.scheme@, host_view(parts.host))),
        None => None,
    }
}

/// `reqwest::Url::parse` reads an address by the URL standard; `scheme` and `host_str` give its
/// parts. The same text always gives the same parts.
#[verifier::external_body]
fn parse_url(text: &str) -> (parts: Option<UrlParts>)
    ensures
        parts_view(parts) == parsed_url(text@),
{
    match reqwest::Url::parse(text) {
        Ok(url) => Some(
            UrlParts {
                scheme: url.scheme().to_string(),
                host: url.host_str().map(|host| host.to_string()),
            },
        ),
        Err(_) => None,
    }
}

/// Why an address is refused, if it is: artifacts come from `https://github.com` only.
pub open spec fn origin_failure(parts: Option<(Seq<char>, Option<Seq<char>>)>) -> Option<
    Seq<char>,
> {
    match parts {
        None => Some("curated artifact URL is invalid"@),
        Some((scheme, host)) => if scheme == "https"@ && host == Some("github.com"@) {
            None
        } else {
            Some("curated artifact origin is not permitted"@)
        },
    }
}

/// Refuses every origin but the permitted one.
pub fn check_origin(parts: &Option<UrlParts>) -> (r: Result<(), ArtifactError>)
    ensures
        match r {
            Ok(()) => origin_failure(parts_view(*parts)) is None,
            Err(e) => origin_failure(parts_view(*parts)) == Some(e.message@),
        },
{
    match parts {
        None => Err(ArtifactError::new("curated artifact URL is invalid")),
        Some(parts) => {
            let permitted = same_text(parts.scheme.as_str(), "https") && match &parts.host {
                Some(host) => same_text(host.as_str(), "github.com"),
                None => false,
            };
            if permitted {
                Ok(())
            } else {
                Err(ArtifactError::new("curated artifact origin is not permitted"))
            }
        },
    }
}

/// Refuses an artifact whose address is not of the permitted origin.
pub fn check_artifact_origin(artifact: &ArtifactSpec) -> (r: Result<(), ArtifactError>)
    ensures
        match r {
            Ok(()) => origin_failure(parsed_url(artifact.url@)) is None,
            Err(e) => origin_failure(parsed_url(artifact.url@)) == Some(e.message@),
        },
{
    let parts = parse_url(artifact.url.as_str());
    check_origin(&parts)
}

/// What has been received once a chunk was offered: the chunk is taken whole or not at all.
pub open spec fn received_after(received: Seq<u8>, chunk: Seq<u8>, bound: nat) -> Seq<u8> {
    if received.len() + chunk.len() <= bound {
        received + chunk
    } else {
        received
    }
}

/// A download in progress: everything received so far, never more than the artifact's size.
pub struct Download {
    content: ContentDigest,
    limit: u64,
}

impl Download {
    #[verifier::type_invariant]
    spec fn well_formed(self) -> bool {
        self.content.content().len() <= self.limit && self.limit <= MAX_DIGEST_BYTES
    }

    /// The bytes received so far.
    pub closed spec fn received(self) -> Seq<u8> {
        self.content.content()
    }

    /// Most bytes that are received: the artifact's size, as far as a digest can be taken of it.
    pub closed spec fn bound(self) -> u64 {
        self.limit
    }

    /// Starts a download unless the server announces another size.
    pub fn begin(artifact: &ArtifactSpec, announced: Option<u64>) -> (r: Result<
        Self,
        ArtifactError,
    >)
        ensures
            r is Ok <==> (announced matches Some(size) ==> size == artifact.size),
            match r {
                Ok(download) => {
                    &&& download.received() == Seq::<u8>::empty()
                    &&& download.bound() == digestible(artifact.size)
                },
                Err(e) => e.message@ == "artifact download size mismatch"@,
            },
    {
        if let Some(size) = announced {
            if size != artifact.size {
                return Err(ArtifactError::new("artifact download size mismatch"));
            }
        }
        Ok(Download { content: ContentDigest::new(), limit: digest_bound(artifact.size) })
    }

    /// Accepts a chunk, or refuses it where the download would exceed the artifact's size.
    pub fn receive(&mut self, chunk: &[u8]) -> (r: Result<(), ArtifactError>)
        ensures
            final(self).bound() == old(self).bound(),
            r is Ok <==> old(self).received().len() + chunk@.len() <= old(self).bound(),
            match r {
                Ok(()) => final(self).received() == old(self).received() + chunk@,
                Err(e) => {
                    &&& final(self).received() == old(self).received()
                    &&& e.message@ == "artifact download exceeded its bound"@
                },
            },
            final(self).received() == received_after(
                old(self).received(),
                chunk@,
                old(self).bound() as nat,
            ),
    {
        proof {
            use_type_invariant(&*self);
        }
        if chunk.len() as u64 > self.limit - self.content.size() {
            return Err(ArtifactError::new("artifact download exceeded its bound"));
        }
        let mut download = Download { content: ContentDigest::new(), limit: self.limit };
        std::mem::swap(&mut download, self);
        let Download { mut content, limit } = download;
        content.push(chunk);
        *self = Download { content, limit };
        Ok(())
    }

    /// Finishes a download: it must be exactly the bytes the manifest promises.
    pub fn finish(self, artifact: &ArtifactSpec) -> (r: Result<(), ArtifactError>)
        ensures
            r is Ok <==> content_matches(self.received(), artifact.size, artifact.sha256@),
            r matches Err(e) ==> e.message@ == "artifact download integrity mismatch"@,
    {
        if check_content(self.content, artifact.size, artifact.sha256.as_str()) {
            Ok(())
        } else {
            Err(ArtifactError::new("artifact download integrity mismatch"))
        }
    }
}

/// Artifacts come from one origin, and over an encrypted connection: any other host, any other
/// scheme, an address without a host, and one that is none are refused.
pub proof fn one_origin_is_permitted(scheme: Seq<char>, host: Option<Seq<char>>)
    ensures
        origin_failure(Some((scheme, host))) is None <==> scheme == "https"@ && host == Some(
            "github.com"@,
        ),
        origin_failure(Some((scheme, host))) matches Some(message) ==> message
            == "curated artifact origin is not permitted"@,
        origin_failure(None) == Some("curated artifact URL is invalid"@),
{
}

/// A download is its chunks in a row, however they are cut, and never exceeds its bound: two chunks
/// that fit are taken as one would be, and one that does not fit is not taken at all.
pub proof fn downloads_are_their_chunks(
    received: Seq<u8>,
    first: Seq<u8>,
    second: Seq<u8>,
    bound: nat,
)
    requires
        received.len() <= bound,
    ensures
        received_after(received, first, bound).len() <= bound,
        received.len() + first.len() + second.len() <= bound ==> received_after(
            received_after(received, first, bound),
            second,
            bound,
        ) == received_after(received, first + second, bound),
        received.len() + first.len() <= bound ==> received_after(received, first, bound) == received
            + first,
        received.len() + first.len() > bound ==> received_after(received, first, bound) == received,
{
    assert(received + first + second =~= received + (first + second));
}

/// A download begins unless another size is announced, and is accepted exactly when what was
/// received is the promised bytes, by length and by digest.
pub proof fn finished_downloads_are_the_promised_bytes(
    artifact: &ArtifactSpec,
    announced: Option<u64>,
    begun: Result<Download, ArtifactError>,
    download: Download,
    finished: Result<(), ArtifactError>,
)
    requires
        call_ensures(Download::begin, (artifact, announced), begun),
        call_ensures(Download::finish, (download, artifact), finished),
    ensures
        begun is Err <==> announced is Some && announced->0 != artifact.size,
        begun matches Ok(fresh) ==> fresh.received().len() == 0 && fresh.bound() <= artifact.size,
        finished is Ok <==> download.received().len() == artifact.size && hex(
            sha256(download.received()),
        ) == artifact.sha256@,
{
}

}
