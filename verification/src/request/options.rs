//! What the header scan learns about a request besides the header list.

use vstd::prelude::*;

verus! {

/// Whether the connection is reused after the response.
#[derive(Debug, Clone, Copy, PartialEq, Eq, Structural)]
pub enum Connection {
    KeepAlive,
    Close,
}

/// The options a finished request carries.
#[derive(Debug, Clone, Copy, PartialEq, Eq, Structural)]
pub struct RequestOptions {
    pub connection: Connection,
}

/// The options gathered while header lines are scanned.
#[derive(Debug, Clone, Copy, PartialEq, Eq)]
pub struct HeaderOptions {
    pub connection: Connection,
    pub content_length: Option<usize>,
    pub has_host: bool,
}

impl Default for HeaderOptions {
    fn default() -> (r: Self)
        ensures
            r == HeaderOptions::spec_default(),
    {
        HeaderOptions { connection: Connection::KeepAlive, content_length: None, has_host: false }
    }
}

impl HeaderOptions {
    /// The options of a request of which no header has been seen.
    pub open spec fn spec_default() -> HeaderOptions {
        HeaderOptions { connection: Connection::KeepAlive, content_length: None, has_host: false }
    }

    /// The options of two consecutive runs of header lines, `self` from the
    /// earlier run: `Close` wins over `KeepAlive`, the first length that is
    /// present wins, and a host seen once stays seen.
    pub open spec fn spec_merge(self, other: HeaderOptions) -> HeaderOptions {
        HeaderOptions {
            connection: if other.connection == Connection::Close {
                Connection::Close
            } else {
                self.connection
            },
            content_length: if self.content_length is None {
                other.content_length
            } else {
                self.content_length
            },
            has_host: self.has_host || other.has_host,
        }
    }

    /// Folds the options of a later run of header lines into `self`.
    pub fn merge(&mut self, other: HeaderOptions)
        ensures
            *final(self) == old(self).spec_merge(other),
    {
        match other.connection {
            Connection::Close => {
                self.connection = Connection::Close;
            },
            Connection::KeepAlive => {},
        }
        if self.content_length.is_none() && other.content_length.is_some() {
            self.content_length = other.content_length;
        }
        if !self.has_host && other.has_host {
            self.has_host = true;
        }
    }
}

/// Merging nothing changes nothing.
pub proof fn lemma_merge_default(a: HeaderOptions)
    ensures
        a.spec_merge(HeaderOptions::spec_default()) == a,
        HeaderOptions::spec_default().spec_merge(a) == a,
{
}

/// Merging run by run gives what merging all at once gives.
pub proof fn lemma_merge_assoc(a: HeaderOptions, b: HeaderOptions, c: HeaderOptions)
    ensures
        a.spec_merge(b).spec_merge(c) == a.spec_merge(b.spec_merge(c)),
{
}

/// A merge never loses what either side had.
pub proof fn lemma_merge_monotonic(a: HeaderOptions, b: HeaderOptions)
    ensures
        (a.has_host || b.has_host) == a.spec_merge(b).has_host,
        (a.connection == Connection::Close || b.connection == Connection::Close) == (a.spec_merge(
            b,
        ).connection == Connection::Close),
        a.content_length is Some ==> a.spec_merge(b).content_length == a.content_length,
        a.content_length is None ==> a.spec_merge(b).content_length == b.content_length,
{
}

} // verus!
