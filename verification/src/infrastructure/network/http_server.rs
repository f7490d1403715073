//! Address of the HTTP server that serves APK files from the root path.
use vstd::prelude::*;
use std::path::PathBuf;
use crate::text::decimal_spec;
use crate::sorting::{is_name_sorting, sort_by_name};

verus! {

/// `http://<ip>:<port>`.
pub open spec fn base_url_spec(ip: Seq<char>, port: u16) -> Seq<char> {
    "http://"@ + ip + ":"@ + decimal_spec(port as nat)
}

/// The units in which the directory listing shows file sizes.
#[derive(Debug, Clone, Copy, PartialEq, Eq)]
pub enum SizeUnit {
    Bytes,
    Kilobytes,
    Megabytes,
    Gigabytes,
}

/// The unit a size is shown in: the largest binary unit that the size
/// reaches.
pub open spec fn size_unit_spec(bytes: u64) -> SizeUnit {
    if bytes >= 1024 * 1024 * 1024 {
        SizeUnit::Gigabytes
    } else if bytes >= 1024 * 1024 {
        SizeUnit::Megabytes
    } else if bytes >= 1024 {
        SizeUnit::Kilobytes
    } else {
        SizeUnit::Bytes
    }
}

/// The unit a file size is shown in.
pub fn size_unit(bytes: u64) -> (u: SizeUnit)
    ensures
        u == size_unit_spec(bytes),
{
    if bytes >= 1024 * 1024 * 1024 {
        SizeUnit::Gigabytes
    } else if bytes >= 1024 * 1024 {
        SizeUnit::Megabytes
    } else if bytes >= 1024 {
        SizeUnit::Kilobytes
    } else {
        SizeUnit::Bytes
    }
}

/// Whether a directory entry is listed: its name ends in ".apk".
pub open spec fn is_apk_name(name: Seq<char>) -> bool {
    name.len() >= 4 && name.subrange(name.len() - 4, name.len() as int) == ".apk"@
}

/// Whether a file name ends in ".apk".
pub fn has_apk_suffix(name: &str) -> (b: bool)
    ensures
        b == is_apk_name(name@),
{
    proof {
        reveal_strlit(".apk");
    }
    let chars = crate::words::chars_of(name);
    let n = chars.len();
    if n < 4 {
        return false;
    }
    let b = chars[n - 4] == '.' && chars[n - 3] == 'a' && chars[n - 2] == 'p' && chars[n - 1]
        == 'k';
    proof {
        let tail = name@.subrange(n - 4, n as int);
        if b {
            assert(tail =~= ".apk"@);
        } else {
            if tail == ".apk"@ {
                assert(tail[0] == '.' && tail[1] == 'a' && tail[2] == 'p' && tail[3] == 'k');
            }
        }
    }
    b
}

/// The HTTP server for APK downloads.
pub struct HttpServer {
    port: u16,
    apk_directory: PathBuf,
    local_ip: String,
}

impl HttpServer {
    /// A server on `port` that serves `apk_directory`, advertised under this
    /// machine's local IP address.
    pub fn new(port: u16, apk_directory: PathBuf) -> (s: Self)
        ensures
            s.port_spec() == port,
            s.apk_directory_spec() == apk_directory,
            s.local_ip_spec().len() > 0,
    {
        Self::with_local_ip(port, apk_directory, crate::paths::discover_local_ip())
    }

    /// A server advertised under a given local IP address.
    pub fn with_local_ip(port: u16, apk_directory: PathBuf, local_ip: String) -> (s: Self)
        ensures
            s.port_spec() == port,
            s.apk_directory_spec() == apk_directory,
            s.local_ip_spec() == local_ip@,
    {
        HttpServer { port, apk_directory, local_ip }
    }

    pub closed spec fn port_spec(&self) -> u16 {
        self.port
    }

    pub closed spec fn local_ip_spec(&self) -> Seq<char> {
        self.local_ip@
    }

    pub fn port(&self) -> (p: u16)
        ensures
            p == self.port_spec(),
    {
        self.port
    }

    /// The directory whose files are served.
    pub closed spec fn apk_directory_spec(&self) -> PathBuf {
        self.apk_directory
    }

    /// The directory whose files are served: the one the server was made with.
    pub fn apk_directory(&self) -> (d: &PathBuf)
        ensures
            *d == self.apk_directory_spec(),
    {
        &self.apk_directory
    }

    /// `http://<ip>:<port>`
    pub fn get_base_url(&self) -> (url: String)
        ensures
            url@ == base_url_spec(self.local_ip_spec(), self.port_spec()),
    {
        let mut url = "http://".to_owned();
        url.append(self.local_ip.as_str());
        url.append(":");
        let port = crate::text::u64_to_decimal(self.port as u64);
        url.append(port.as_str());
        url
    }
}

/// The start of the directory listing page.
pub open spec fn listing_head() -> Seq<char> {
    "<html><head><title>Index of /</title></head><body><h1>Index of /</h1><hr><pre>\n"@
}

/// The end of the directory listing page.
pub open spec fn listing_tail() -> Seq<char> {
    "</pre><hr></body></html>"@
}

/// The listing line of one file: a link to it, and its size.
pub open spec fn listing_row(name: Seq<char>, size: Seq<char>) -> Seq<char> {
    "<a href=\"/"@ + name + "\">"@ + name + "</a>  "@ + size + "\n"@
}

/// The lines of the APK files among `files` (name, size text), in order.
pub open spec fn listing_rows(files: Seq<(String, String)>) -> Seq<char>
    decreases files.len(),
{
    if files.len() == 0 {
        Seq::empty()
    } else {
        let rest = listing_rows(files.drop_last());
        if is_apk_name(files.last().0@) {
            rest + listing_row(files.last().0@, files.last().1@)
        } else {
            rest
        }
    }
}

/// The listing page of `files`, taken in this order.
pub open spec fn listing_page(files: Seq<(String, String)>) -> Seq<char> {
    listing_head() + (if listing_rows(files).len() == 0 {
        "No APK files found\n"@
    } else {
        listing_rows(files)
    }) + listing_tail()
}

/// The HTML page at the server's root: the files whose names end in
/// ".apk", in order of their names, each linked and with its size, or a
/// note that there is none. `files` are the regular files of the APK
/// directory with their sizes as shown.
pub fn directory_listing_html(files: Vec<(String, String)>) -> (html: String)
    ensures
        exists|t: Seq<(String, String)>| is_name_sorting(files@, t) && html@ == listing_page(t),
{
    let sorted = sort_by_name(files);
    let ghost t = sorted@;
    let mut rows = String::new();
    let mut i: usize = 0;
    proof {
        assert(rows@ =~= Seq::<char>::empty());
    }
    while i < sorted.len()
        invariant
            t == sorted@,
            i <= sorted@.len(),
            rows@ == listing_rows(sorted@.subrange(0, i as int)),
        decreases sorted@.len() - i,
    {
        assert(sorted@.subrange(0, i + 1).drop_last() =~= sorted@.subrange(0, i as int));
        let name = sorted[i].0.as_str();
        if has_apk_suffix(name) {
            let ghost before = rows@;
            rows.append("<a href=\"/");
            rows.append(name);
            rows.append("\">");
            rows.append(name);
            rows.append("</a>  ");
            rows.append(sorted[i].1.as_str());
            rows.append("\n");
            assert(rows@ =~= before + listing_row(name@, sorted@[i as int].1@));
        }
        i = i + 1;
    }
    assert(sorted@.subrange(0, i as int) =~= t);
    let mut html = "<html><head><title>Index of /</title></head><body><h1>Index of /</h1><hr><pre>\n".to_owned();
    if rows.unicode_len() == 0 {
        html.append("No APK files found\n");
    } else {
        html.append(rows.as_str());
    }
    html.append("</pre><hr></body></html>");
    assert(html@ =~= listing_page(t));
    html
}

} // verus!
