//! Download requests, their builder, progress events and completion summaries.

use vstd::prelude::*;
use crate::elapsed::Elapsed;

verus! {

/// The default number of connections used by [`DownloadRequest::new`].
pub const DEFAULT_CONNECTIONS: usize = 4;

/// Describes a download request.
///
/// `DownloadRequest::new` provides conservative defaults suitable for most
/// downloads; the fields stay public so callers can write struct literals.
#[derive(Clone, Debug)]
pub struct DownloadRequest {
    pub url: String,
    pub output: Option<String>,
    pub output_dir: Option<String>,
    pub connections: usize,
    pub user_agent: Option<String>,
    pub limit: Option<u64>,
    pub experimental_entropy: bool,
}

/// The request that `DownloadRequest::new(url)` creates.
pub open spec fn default_request(url: String) -> DownloadRequest {
    DownloadRequest {
        url,
        output: None,
        output_dir: None,
        connections: DEFAULT_CONNECTIONS,
        user_agent: None,
        limit: None,
        experimental_entropy: false,
    }
}

impl DownloadRequest {
    /// Starts a builder for a download request.
    pub fn builder(url: String) -> (b: DownloadRequestBuilder)
        ensures
            b.spec_request() == default_request(url),
    {
        DownloadRequestBuilder::new(url)
    }

    /// Creates a download request with practical defaults: output inferred from
    /// the response or URL, `DEFAULT_CONNECTIONS` connections, no user agent,
    /// no speed limit, experimental entropy mode off.
    pub fn new(url: String) -> (r: DownloadRequest)
        ensures
            r == default_request(url),
    {
        DownloadRequest {
            url,
            output: None,
            output_dir: None,
            connections: DEFAULT_CONNECTIONS,
            user_agent: None,
            limit: None,
            experimental_entropy: false,
        }
    }

    /// Sets the exact output file path.
    pub fn output(self, output: String) -> (r: DownloadRequest)
        ensures
            r == (DownloadRequest { output: Some(output), ..self }),
    {
        DownloadRequest { output: Some(output), ..self }
    }

    /// Sets the directory used when inferring the output filename.
    pub fn output_dir(self, output_dir: String) -> (r: DownloadRequest)
        ensures
            r == (DownloadRequest { output_dir: Some(output_dir), ..self }),
    {
        DownloadRequest { output_dir: Some(output_dir), ..self }
    }

    /// Sets the number of connections used for segmented downloads; 0 is kept
    /// and treated as 1 when the download starts.
    pub fn connections(self, connections: usize) -> (r: DownloadRequest)
        ensures
            r == (DownloadRequest { connections, ..self }),
    {
        DownloadRequest { connections, ..self }
    }

    /// Sets the HTTP `User-Agent` header.
    pub fn user_agent(self, user_agent: String) -> (r: DownloadRequest)
        ensures
            r == (DownloadRequest { user_agent: Some(user_agent), ..self }),
    {
        DownloadRequest { user_agent: Some(user_agent), ..self }
    }

    /// Sets a global download speed limit in bytes per second.
    pub fn speed_limit(self, bytes_per_second: u64) -> (r: DownloadRequest)
        ensures
            r == (DownloadRequest { limit: Some(bytes_per_second), ..self }),
    {
        DownloadRequest { limit: Some(bytes_per_second), ..self }
    }

    /// Sets or clears the global download speed limit in bytes per second.
    pub fn optional_speed_limit(self, bytes_per_second: Option<u64>) -> (r: DownloadRequest)
        ensures
            r == (DownloadRequest { limit: bytes_per_second, ..self }),
    {
        DownloadRequest { limit: bytes_per_second, ..self }
    }

    /// Enables or disables experimental connection entropy mode.
    pub fn experimental_entropy(self, enabled: bool) -> (r: DownloadRequest)
        ensures
            r == (DownloadRequest { experimental_entropy: enabled, ..self }),
    {
        DownloadRequest { experimental_entropy: enabled, ..self }
    }

    /// The output file path configured on the request, if any.
    pub fn output_path(&self) -> (p: Option<&str>)
        ensures
            p is Some <==> self.output is Some,
            p matches Some(s) ==> s@ == self.output->0@,
    {
        match &self.output {
            Some(o) => Some(o.as_str()),
            None => None,
        }
    }

    /// The output directory configured on the request, if any.
    pub fn output_directory(&self) -> (p: Option<&str>)
        ensures
            p is Some <==> self.output_dir is Some,
            p matches Some(s) ==> s@ == self.output_dir->0@,
    {
        match &self.output_dir {
            Some(o) => Some(o.as_str()),
            None => None,
        }
    }

    /// The configured speed limit in bytes per second, if any.
    pub fn speed_limit_bytes_per_second(&self) -> (l: Option<u64>)
        ensures
            l == self.limit,
    {
        self.limit
    }
}

/// Builder for [`DownloadRequest`], equivalent to the chainable setters.
#[derive(Clone, Debug)]
pub struct DownloadRequestBuilder {
    request: DownloadRequest,
}

impl DownloadRequestBuilder {
    /// The request that `build` returns.
    pub closed spec fn spec_request(self) -> DownloadRequest {
        self.request
    }

    /// Creates a builder with [`DownloadRequest::new`] defaults.
    pub fn new(url: String) -> (b: DownloadRequestBuilder)
        ensures
            b.spec_request() == default_request(url),
    {
        DownloadRequestBuilder { request: DownloadRequest::new(url) }
    }

    /// Sets the exact output file path.
    pub fn output(self, output: String) -> (b: DownloadRequestBuilder)
        ensures
            b.spec_request() == (DownloadRequest { output: Some(output), ..self.spec_request() }),
    {
        DownloadRequestBuilder { request: self.request.output(output) }
    }

    /// Sets the directory used when inferring the output filename.
    pub fn output_dir(self, output_dir: String) -> (b: DownloadRequestBuilder)
        ensures
            b.spec_request() == (DownloadRequest { output_dir: Some(output_dir), ..self.spec_request() }),
    {
        DownloadRequestBuilder { request: self.request.output_dir(output_dir) }
    }

    /// Sets the number of connections used for segmented downloads.
    pub fn connections(self, connections: usize) -> (b: DownloadRequestBuilder)
        ensures
            b.spec_request() == (DownloadRequest { connections, ..self.spec_request() }),
    {
        DownloadRequestBuilder { request: self.request.connections(connections) }
    }

    /// Sets the HTTP `User-Agent` header.
    pub fn user_agent(self, user_agent: String) -> (b: DownloadRequestBuilder)
        ensures
            b.spec_request() == (DownloadRequest { user_agent: Some(user_agent), ..self.spec_request() }),
    {
        DownloadRequestBuilder { request: self.request.user_agent(user_agent) }
    }

    /// Sets a global download speed limit in bytes per second.
    pub fn speed_limit(self, bytes_per_second: u64) -> (b: DownloadRequestBuilder)
        ensures
            b.spec_request() == (DownloadRequest { limit: Some(bytes_per_second), ..self.spec_request() }),
    {
        DownloadRequestBuilder { request: self.request.speed_limit(bytes_per_second) }
    }

    /// Sets or clears the global download speed limit in bytes per second.
    pub fn optional_speed_limit(self, bytes_per_second: Option<u64>) -> (b: DownloadRequestBuilder)
        ensures
            b.spec_request() == (DownloadRequest { limit: bytes_per_second, ..self.spec_request() }),
    {
        DownloadRequestBuilder { request: self.request.optional_speed_limit(bytes_per_second) }
    }

    /// Enables or disables experimental connection entropy mode.
    pub fn experimental_entropy(self, enabled: bool) -> (b: DownloadRequestBuilder)
        ensures
            b.spec_request() == (DownloadRequest { experimental_entropy: enabled, ..self.spec_request() }),
    {
        DownloadRequestBuilder { request: self.request.experimental_entropy(enabled) }
    }

    /// Builds the request.
    pub fn build(self) -> (r: DownloadRequest)
        ensures
            r == self.spec_request(),
    {
        self.request
    }
}

/// Reports lifecycle updates for a download.
#[derive(Debug, Clone)]
pub enum DownloadEvent {
    Started { output: String, total_bytes: Option<u64>, resumed_bytes: u64 },
    Progress { downloaded_bytes: u64, total_bytes: Option<u64> },
    Finished { summary: DownloadSummary },
    Failed { message: String },
}

/// Holds the completion details for a download.
#[derive(Debug, Clone)]
pub struct DownloadSummary {
    pub output: String,
    pub total_bytes: u64,
    pub downloaded_bytes: u64,
    pub resumed_bytes: u64,
    pub elapsed: Elapsed,
}

impl DownloadSummary {
    /// The summary of a download whose output already held all `total` bytes:
    /// everything counts as resumed and no time passed.
    pub fn already_complete(output: String, total: u64) -> (s: DownloadSummary)
        ensures
            s.output == output,
            s.total_bytes == total,
            s.downloaded_bytes == total,
            s.resumed_bytes == total,
            s.elapsed.total_nanos() == 0,
    {
        DownloadSummary {
            output,
            total_bytes: total,
            downloaded_bytes: total,
            resumed_bytes: total,
            elapsed: Elapsed::from_secs(0),
        }
    }

    /// The summary of a finished transfer: the output now holds `len` bytes,
    /// `resumed` of which were there before, after `elapsed`.
    pub fn finished(output: String, len: u64, resumed: u64, elapsed: Elapsed) -> (s: DownloadSummary)
        ensures
            s == (DownloadSummary {
                output,
                total_bytes: len,
                downloaded_bytes: len,
                resumed_bytes: resumed,
                elapsed,
            }),
    {
        DownloadSummary { output, total_bytes: len, downloaded_bytes: len, resumed_bytes: resumed, elapsed }
    }

    /// Bytes transferred by this run (what was already on disk does not count).
    pub fn transferred_bytes(&self) -> (n: u64)
        ensures
            n == if self.downloaded_bytes >= self.resumed_bytes {
                self.downloaded_bytes - self.resumed_bytes
            } else {
                0
            },
    {
        if self.downloaded_bytes >= self.resumed_bytes {
            self.downloaded_bytes - self.resumed_bytes
        } else {
            0
        }
    }
}

} // verus!
