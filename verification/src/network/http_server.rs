//! Addresses of the HTTP server that serves APK files to devices under
//! `/apks`.
use vstd::prelude::*;
use std::path::PathBuf;
use crate::text::decimal_spec;

verus! {

/// `http://<ip>:<port>/apks`.
pub open spec fn apks_base_url(ip: Seq<char>, port: u16) -> Seq<char> {
    "http://"@ + ip + ":"@ + decimal_spec(port as nat) + "/apks"@
}

/// The HTTP server for APK downloads.
pub struct HttpServer {
    port: u16,
    apk_directory: PathBuf,
    local_ip: String,
}

impl HttpServer {
    /// A server on `port` that serves `apk_directory`, advertised under this
    /// machine's local IP address.
    pub fn new(port: u16, apk_directory: PathBuf) -> (s: Self)
        ensures
            s.port_spec() == port,
            s.apk_directory_spec() == apk_directory,
            s.local_ip_spec().len() > 0,
    {
        Self::with_local_ip(port, apk_directory, crate::paths::discover_local_ip())
    }

    /// A server advertised under a given local IP address.
    pub fn with_local_ip(port: u16, apk_directory: PathBuf, local_ip: String) -> (s: Self)
        ensures
            s.port_spec() == port,
            s.apk_directory_spec() == apk_directory,
            s.local_ip_spec() == local_ip@,
    {
        HttpServer { port, apk_directory, local_ip }
    }

    pub closed spec fn port_spec(&self) -> u16 {
        self.port
    }

    pub closed spec fn local_ip_spec(&self) -> Seq<char> {
        self.local_ip@
    }

    pub fn port(&self) -> (p: u16)
        ensures
            p == self.port_spec(),
    {
        self.port
    }

    /// The directory whose files are served.
    pub closed spec fn apk_directory_spec(&self) -> PathBuf {
        self.apk_directory
    }

    /// The directory whose files are served: the one the server was made with.
    pub fn apk_directory(&self) -> (d: &PathBuf)
        ensures
            *d == self.apk_directory_spec(),
    {
        &self.apk_directory
    }

    /// `http://<ip>:<port>/apks`
    pub fn get_base_url(&self) -> (url: String)
        ensures
            url@ == apks_base_url(self.local_ip_spec(), self.port_spec()),
    {
        let mut url = "http://".to_owned();
        url.append(self.local_ip.as_str());
        url.append(":");
        let port = crate::text::u64_to_decimal(self.port as u64);
        url.append(port.as_str());
        url.append("/apks");
        url
    }

    /// The download URL of an APK file: `<base>/<filename>`.
    pub fn get_apk_url(&self, filename: &str) -> (url: String)
        ensures
            url@ == apks_base_url(self.local_ip_spec(), self.port_spec()) + "/"@ + filename@,
    {
        let mut url = self.get_base_url();
        url.append("/");
        url.append(filename);
        url
    }

    /// The advertised local IP address.
    pub fn get_local_ip(&self) -> (ip: &str)
        ensures
            ip@ == self.local_ip_spec(),
    {
        self.local_ip.as_str()
    }
}

} // verus!
