//! The APK store: a directory of APK files, each served at a URL under a
//! base URL.
use vstd::prelude::*;
use std::path::PathBuf;
use crate::infrastructure::network::http_server::{has_apk_suffix, is_apk_name};
use crate::paths::{clone_path, join_path, joined_path};
use crate::sorting::{is_name_sorting, sort_by_name};

verus! {

/// A file name whose extension (as `Path::extension` reads it) is `apk`:
/// it ends in ".apk" and has something before that dot.
pub open spec fn has_apk_extension(name: Seq<char>) -> bool {
    name.len() > 4 && is_apk_name(name)
}

/// The URL of a file under a base URL.
pub open spec fn apk_url_spec(base: Seq<char>, filename: Seq<char>) -> Seq<char> {
    base + "/"@ + filename
}

/// An APK file of the store.
#[derive(Debug)]
pub struct ApkInfo {
    pub filename: String,
    pub size_bytes: u64,
    pub url: String,
}

/// An APK's name, size and URL.
pub open spec fn apk_info_view(a: ApkInfo) -> (Seq<char>, u64, Seq<char>) {
    (a.filename@, a.size_bytes, a.url@)
}

/// The APKs among directory entries (name, size), in the entries' order.
pub open spec fn apk_infos_spec(entries: Seq<(String, u64)>, base: Seq<char>) -> Seq<
    (Seq<char>, u64, Seq<char>),
>
    decreases entries.len(),
{
    if entries.len() == 0 {
        Seq::empty()
    } else {
        let rest = apk_infos_spec(entries.drop_last(), base);
        let (name, size) = entries.last();
        if has_apk_extension(name@) {
            rest.push((name@, size, apk_url_spec(base, name@)))
        } else {
            rest
        }
    }
}

/// Whether a file name has the extension `apk`.
pub fn has_apk_extension_exec(name: &str) -> (b: bool)
    ensures
        b == has_apk_extension(name@),
{
    name.unicode_len() > 4 && has_apk_suffix(name)
}

/// Filesystem APK repository: APK files stored in a directory.
pub struct FsApkRepository {
    storage_dir: PathBuf,
    base_url: String,
}

impl FsApkRepository {
    /// A repository over `storage_dir`, serving files under `base_url`
    /// (e.g. "http://localhost:8080").
    pub fn new(storage_dir: PathBuf, base_url: String) -> (r: Self)
        ensures
            r.base_url_view() == base_url@,
            r.storage_dir_spec() == storage_dir,
    {
        FsApkRepository { storage_dir, base_url }
    }

    /// The base URL, as characters.
    pub closed spec fn base_url_view(&self) -> Seq<char> {
        self.base_url@
    }

    /// The base URL.
    pub fn base_url(&self) -> (u: &str)
        ensures
            u@ == self.base_url_view(),
    {
        self.base_url.as_str()
    }

    /// The full URL of an APK file.
    pub fn get_apk_url(&self, filename: &str) -> (url: String)
        ensures
            url@ == apk_url_spec(self.base_url_view(), filename@),
    {
        let mut url = self.base_url.as_str().to_owned();
        url.append("/");
        url.append(filename);
        url
    }

    /// The path of an APK file in the storage directory.
    pub fn get_apk_path(&self, filename: &str) -> (p: PathBuf)
        ensures
            p == joined_path(self.storage_dir_spec(), filename@),
    {
        join_path(&self.storage_dir, filename)
    }

    /// The storage directory.
    pub closed spec fn storage_dir_spec(&self) -> PathBuf {
        self.storage_dir
    }

    /// The storage directory: the one the repository was made with.
    pub fn get_storage_directory(&self) -> (d: PathBuf)
        ensures
            d == self.storage_dir_spec(),
    {
        clone_path(&self.storage_dir)
    }

    /// The APKs among the directory's entries (file name and size), in
    /// order of their names, each with its URL.
    pub fn apk_listing(&self, entries: Vec<(String, u64)>) -> (apks: Vec<ApkInfo>)
        ensures
            exists|s: Seq<(String, u64)>|
                is_name_sorting(entries@, s) && apks@.map_values(|a: ApkInfo| apk_info_view(a))
                    == apk_infos_spec(s, self.base_url_view()),
    {
        let sorted = sort_by_name(entries);
        let ghost s = sorted@;
        let mut rest = sorted;
        let mut rev: Vec<ApkInfo> = Vec::new();
        while rest.len() > 0
            invariant
                apk_infos_spec(s, self.base_url_view()) == apk_infos_spec(
                    rest@,
                    self.base_url_view(),
                ) + rev@.map_values(|a: ApkInfo| apk_info_view(a)).reverse(),
            decreases rest@.len(),
        {
            let ghost before = rest@;
            let ghost old_rev = rev@.map_values(|a: ApkInfo| apk_info_view(a));
            let (name, size) = rest.pop().unwrap();
            assert(before.drop_last() =~= rest@);
            if has_apk_extension_exec(name.as_str()) {
                let url = self.get_apk_url(name.as_str());
                rev.push(ApkInfo { filename: name, size_bytes: size, url });
                assert(apk_info_view(rev@.last()) == (before.last().0@, before.last().1, apk_url_spec(
                    self.base_url_view(),
                    before.last().0@,
                )));
                assert(rev@.map_values(|a: ApkInfo| apk_info_view(a)) =~= old_rev.push(
                    apk_info_view(rev@.last()),
                ));
                assert(rev@.map_values(|a: ApkInfo| apk_info_view(a)).reverse() =~= seq![
                    apk_info_view(rev@.last()),
                ] + old_rev.reverse());
            }
        }
        assert(apk_infos_spec(rest@, self.base_url_view()) =~= Seq::empty());
        let mut apks: Vec<ApkInfo> = Vec::new();
        while rev.len() > 0
            invariant
                apk_infos_spec(s, self.base_url_view()) == apks@.map_values(
                    |a: ApkInfo| apk_info_view(a),
                ) + rev@.map_values(|a: ApkInfo| apk_info_view(a)).reverse(),
            decreases rev@.len(),
        {
            let ghost old_rev = rev@.map_values(|a: ApkInfo| apk_info_view(a));
            let ghost old_apks = apks@.map_values(|a: ApkInfo| apk_info_view(a));
            let a = rev.pop().unwrap();
            apks.push(a);
            assert(apks@.map_values(|a: ApkInfo| apk_info_view(a)) =~= old_apks.push(
                old_rev.last(),
            ));
            assert(old_rev.reverse() =~= seq![old_rev.last()] + rev@.map_values(
                |a: ApkInfo| apk_info_view(a),
            ).reverse());
        }
        assert(apks@.map_values(|a: ApkInfo| apk_info_view(a)) =~= apks@.map_values(
            |a: ApkInfo| apk_info_view(a),
        ) + rev@.map_values(|a: ApkInfo| apk_info_view(a)).reverse());
        apks
    }
}

} // verus!
