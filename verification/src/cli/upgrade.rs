//! What an upgrade of the program decides: which release is newer, which of
//! its files suits the machine, and which checksum it is to have.

use crate::config::kylefile::texts;
use crate::text::{
    append, chars_of, contains_text, ends_with, is_part_of, is_text, lines, run_len, scan_run,
    slice, split_lines, split_words, string_of, views, words, CharClass,
};
use vstd::prelude::*;

verus! {

/// The build target for the operating system `os` on the architecture
/// `arch`, as the release's files are named after it.
pub open spec fn target_of(os: Seq<char>, arch: Seq<char>) -> Seq<char> {
    if os == "linux"@ && arch == "x86_64"@ {
        "x86_64-unknown-linux-musl"@
    } else if os == "linux"@ && arch == "aarch64"@ {
        "aarch64-unknown-linux-musl"@
    } else if os == "macos"@ && arch == "x86_64"@ {
        "x86_64-apple-darwin"@
    } else if os == "macos"@ && arch == "aarch64"@ {
        "aarch64-apple-darwin"@
    } else if os == "windows"@ && arch == "x86_64"@ {
        "x86_64-pc-windows-msvc"@
    } else {
        arch + "-"@ + os
    }
}

/// The version that a release tag names: the tag without the `v`s at its
/// start.
pub open spec fn version_of(tag: Seq<char>) -> Seq<char> {
    tag.skip(run_len(tag, CharClass::Is('v')) as int)
}

/// The index of the first of `names` from `from` on that holds `target`, or
/// the number of names.
pub open spec fn first_holding(names: Seq<Seq<char>>, target: Seq<char>, from: int) -> int
    decreases names.len() - from,
{
    if 0 <= from < names.len() && !is_part_of(target, names[from]) {
        first_holding(names, target, from + 1)
    } else {
        from
    }
}

/// How a release is packed.
#[derive(Debug, Clone, Copy, PartialEq, Eq)]
pub enum Archive {
    TarGz,
    Zip,
}

/// How the file called `name` is packed, as far as its name tells.
pub open spec fn archive_of(name: Seq<char>) -> Option<Archive> {
    if ".tar.gz"@.is_suffix_of(name) {
        Some(Archive::TarGz)
    } else if ".zip"@.is_suffix_of(name) {
        Some(Archive::Zip)
    } else {
        None
    }
}

/// Why a list of checksums does not tell the checksum of a file.
#[derive(Debug, Clone, Copy, PartialEq, Eq)]
pub enum ChecksumError {
    /// No line names the file.
    NotListed,
    /// The line that names the file holds no checksum.
    Malformed,
}

/// The index of the first of `all` from `from` on that holds `name`, or the
/// number of lines.
pub open spec fn first_naming(all: Seq<Seq<char>>, name: Seq<char>, from: int) -> int
    decreases all.len() - from,
{
    if 0 <= from < all.len() && !is_part_of(name, all[from]) {
        first_naming(all, name, from + 1)
    } else {
        from
    }
}

/// The checksum that the list `checksums` gives for the file called `name`:
/// the first word of the first line that holds the name.
pub open spec fn listed_checksum(checksums: Seq<char>, name: Seq<char>) -> Result<
    Seq<char>,
    ChecksumError,
> {
    let all = lines(checksums);
    let at = first_naming(all, name, 0);
    if at >= all.len() {
        Err(ChecksumError::NotListed)
    } else if words(all[at]).len() == 0 {
        Err(ChecksumError::Malformed)
    } else {
        Ok(words(all[at])[0])
    }
}

/// The first word of `text`, or nothing where it has none.
pub open spec fn first_word_of(text: Seq<char>) -> Seq<char> {
    if words(text).len() == 0 {
        Seq::empty()
    } else {
        words(text)[0]
    }
}

/// The build target for the operating system `os` on the architecture
/// `arch`.
pub fn get_target(os: &str, arch: &str) -> (out: String)
    ensures
        out@ == target_of(os@, arch@),
{
    let o = chars_of(os);
    let a = chars_of(arch);
    if is_text(&o, "linux") && is_text(&a, "x86_64") {
        "x86_64-unknown-linux-musl".to_owned()
    } else if is_text(&o, "linux") && is_text(&a, "aarch64") {
        "aarch64-unknown-linux-musl".to_owned()
    } else if is_text(&o, "macos") && is_text(&a, "x86_64") {
        "x86_64-apple-darwin".to_owned()
    } else if is_text(&o, "macos") && is_text(&a, "aarch64") {
        "aarch64-apple-darwin".to_owned()
    } else if is_text(&o, "windows") && is_text(&a, "x86_64") {
        "x86_64-pc-windows-msvc".to_owned()
    } else {
        let mut text = a;
        append(&mut text, &chars_of("-"));
        append(&mut text, &o);
        string_of(&text)
    }
}

/// The version that the release tag `tag` names.
pub fn version(tag: &str) -> (out: String)
    ensures
        out@ == version_of(tag@),
{
    let text = chars_of(tag);
    assert(text@.skip(0) =~= text@);
    let from = scan_run(&text, 0, CharClass::Is('v'));
    let rest = slice(&text, from, text.len());
    assert(rest@ =~= text@.skip(from as int));
    string_of(&rest)
}

/// Tests whether the release tagged `latest` is the version `current`.
pub fn is_up_to_date(current: &str, latest: &str) -> (yes: bool)
    ensures
        yes == (version_of(current@) == version_of(latest@)),
{
    version(current) == version(latest)
}

/// The index of the first file of the release whose name holds `target`,
/// if there is one.
pub fn find_asset(names: &Vec<String>, target: &str) -> (out: Option<usize>)
    ensures
        match out {
            Some(i) => i < names.len() && i == first_holding(texts(names@), target@, 0),
            None => first_holding(texts(names@), target@, 0) >= names.len(),
        },
{
    let want = chars_of(target);
    let mut i: usize = 0;
    while i < names.len()
        invariant
            i <= names.len(),
            want@ == target@,
            first_holding(texts(names@), target@, 0) == first_holding(
                texts(names@),
                target@,
                i as int,
            ),
        decreases names.len() - i,
    {
        assert(texts(names@)[i as int] == names@[i as int]@);
        if contains_text(&chars_of(names[i].as_str()), &want) {
            return Some(i);
        }
        i += 1;
    }
    None
}

/// How the file called `name` is packed.
pub fn archive_kind(name: &str) -> (out: Option<Archive>)
    ensures
        out == archive_of(name@),
{
    let text = chars_of(name);
    if ends_with(&text, &chars_of(".tar.gz")) {
        Some(Archive::TarGz)
    } else if ends_with(&text, &chars_of(".zip")) {
        Some(Archive::Zip)
    } else {
        None
    }
}

/// The checksum that the list `checksums` gives for the file called
/// `name`.
pub fn expected_checksum(checksums: &str, name: &str) -> (out: Result<String, ChecksumError>)
    ensures
        match listed_checksum(checksums@, name@) {
            Ok(sum) => out matches Ok(s) && s@ == sum,
            Err(e) => out == Err::<String, ChecksumError>(e),
        },
{
    let all = split_lines(&chars_of(checksums));
    let want = chars_of(name);
    let mut i: usize = 0;
    while i < all.len()
        invariant
            i <= all.len(),
            want@ == name@,
            views(all@) == lines(checksums@),
            first_naming(lines(checksums@), name@, 0) == first_naming(
                lines(checksums@),
                name@,
                i as int,
            ),
        decreases all.len() - i,
    {
        assert(views(all@)[i as int] == all@[i as int]@);
        if contains_text(&all[i], &want) {
            let found = split_words(&all[i]);
            if found.len() == 0 {
                return Err(ChecksumError::Malformed);
            }
            assert(views(found@)[0] == found@[0]@);
            return Ok(string_of(&found[0]));
        }
        i += 1;
    }
    Err(ChecksumError::NotListed)
}

/// The first word of `text`, or nothing where it has none.
pub fn first_word(text: &str) -> (out: String)
    ensures
        out@ == first_word_of(text@),
{
    let found = split_words(&chars_of(text));
    if found.len() == 0 {
        String::new()
    } else {
        assert(views(found@)[0] == found@[0]@);
        string_of(&found[0])
    }
}

/// What a file of a release is.
pub struct AssetView {
    pub name: Seq<char>,
    pub browser_download_url: Seq<char>,
}

/// A file of a release.
#[derive(Debug)]
pub struct Asset {
    pub name: String,
    pub browser_download_url: String,
}

impl View for Asset {
    type V = AssetView;

    open spec fn view(&self) -> AssetView {
        AssetView { name: self.name@, browser_download_url: self.browser_download_url@ }
    }
}

/// What each file of `v` is.
pub open spec fn assets_of(v: Seq<Asset>) -> Seq<AssetView> {
    Seq::new(v.len(), |i: int| v[i]@)
}

/// A release of the program.
#[derive(Debug)]
pub struct Release {
    pub tag_name: String,
    pub assets: Vec<Asset>,
}

/// Why the description of a release cannot be used.
#[derive(Debug, Clone, Copy, PartialEq, Eq)]
pub enum ReleaseError {
    /// It names no tag.
    MissingTagName,
    /// It lists no files.
    MissingAssets,
}

/// What the entry `(name, url)` of a release's list of files says.
pub open spec fn entry_of(entry: (Option<String>, Option<String>)) -> Option<AssetView> {
    match entry {
        (Some(name), Some(url)) => Some(AssetView { name: name@, browser_download_url: url@ }),
        _ => None,
    }
}

/// The files among `entries` that have both a name and an address, in
/// order.
pub open spec fn complete(entries: Seq<(Option<String>, Option<String>)>) -> Seq<AssetView>
    decreases entries.len(),
{
    if entries.len() == 0 {
        Seq::empty()
    } else {
        match entry_of(entries.last()) {
            Some(asset) => complete(entries.drop_last()).push(asset),
            None => complete(entries.drop_last()),
        }
    }
}

/// The release that a description gives: it needs a tag and a list of
/// files, of which those without a name or an address are left out.
pub fn release_from(
    tag_name: Option<String>,
    assets: Option<Vec<(Option<String>, Option<String>)>>,
) -> (out: Result<Release, ReleaseError>)
    ensures
        match (tag_name, assets) {
            (None, _) => out == Err::<Release, ReleaseError>(ReleaseError::MissingTagName),
            (Some(_), None) => out == Err::<Release, ReleaseError>(ReleaseError::MissingAssets),
            (Some(tag), Some(entries)) => out matches Ok(release) && release.tag_name@ == tag@
                && assets_of(release.assets@) == complete(entries@),
        },
{
    let tag = match tag_name {
        Some(tag) => tag,
        None => return Err(ReleaseError::MissingTagName),
    };
    let entries = match assets {
        Some(entries) => entries,
        None => return Err(ReleaseError::MissingAssets),
    };
    let mut kept: Vec<Asset> = Vec::new();
    let mut i: usize = 0;
    assert(entries@.take(0) =~= Seq::<(Option<String>, Option<String>)>::empty());
    assert(assets_of(kept@) =~= Seq::<AssetView>::empty());
    while i < entries.len()
        invariant
            i <= entries.len(),
            assets_of(kept@) == complete(entries@.take(i as int)),
        decreases entries.len() - i,
    {
        let ghost before = assets_of(kept@);
        proof {
            let now = entries@.take(i + 1);
            assert(now.drop_last() =~= entries@.take(i as int));
            assert(now.last() == entries@[i as int]);
        }
        match &entries[i] {
            (Some(name), Some(url)) => {
                let asset = Asset { name: name.clone(), browser_download_url: url.clone() };
                kept.push(asset);
                assert(assets_of(kept@) =~= before.push(asset@));
            },
            _ => {},
        }
        i += 1;
    }
    assert(entries@.take(entries.len() as int) =~= entries@);
    Ok(Release { tag_name: tag, assets: kept })
}

/// What an upgrade is to do.
pub enum PlanView {
    UpToDate,
    NoBinary(Seq<char>),
    Download(AssetView),
}

/// What an upgrade is to do.
#[derive(Debug)]
pub enum Plan {
    /// Nothing: the latest release is the version that runs.
    UpToDate,
    /// Nothing: the release has no file for this build target.
    NoBinary(String),
    /// Fetch this file of the release and put it in the program's place.
    Download(Asset),
}

impl View for Plan {
    type V = PlanView;

    open spec fn view(&self) -> PlanView {
        match self {
            Plan::UpToDate => PlanView::UpToDate,
            Plan::NoBinary(target) => PlanView::NoBinary(target@),
            Plan::Download(asset) => PlanView::Download(asset@),
        }
    }
}

/// The name of each file of `assets`.
pub open spec fn names_of(assets: Seq<AssetView>) -> Seq<Seq<char>> {
    Seq::new(assets.len(), |i: int| assets[i].name)
}

/// What the version `current` on the system `os` and `arch` does with the
/// release tagged `tag` that has the files `assets`: nothing where the
/// release is that version, else it fetches the first file whose name holds
/// the build target, if there is one.
pub open spec fn planned(
    current: Seq<char>,
    tag: Seq<char>,
    assets: Seq<AssetView>,
    os: Seq<char>,
    arch: Seq<char>,
) -> PlanView {
    if version_of(current) == version_of(tag) {
        PlanView::UpToDate
    } else {
        let at = first_holding(names_of(assets), target_of(os, arch), 0);
        if at < assets.len() {
            PlanView::Download(assets[at])
        } else {
            PlanView::NoBinary(target_of(os, arch))
        }
    }
}

/// What an upgrade from the version `current` to `release` is to do on the
/// system `os` and `arch`.
pub fn plan_upgrade(current: &str, release: &Release, os: &str, arch: &str) -> (out: Plan)
    ensures
        out@ == planned(current@, release.tag_name@, assets_of(release.assets@), os@, arch@),
{
    if is_up_to_date(current, release.tag_name.as_str()) {
        return Plan::UpToDate;
    }
    let target = get_target(os, arch);
    let mut names: Vec<String> = Vec::new();
    let mut i: usize = 0;
    while i < release.assets.len()
        invariant
            i <= release.assets.len(),
            names.len() == i,
            forall|k: int| 0 <= k < i ==> names@[k]@ == release.assets@[k].name@,
        decreases release.assets.len() - i,
    {
        names.push(release.assets[i].name.clone());
        i += 1;
    }
    assert(texts(names@) =~= names_of(assets_of(release.assets@)));
    match find_asset(&names, target.as_str()) {
        Some(at) => {
            let asset = &release.assets[at];
            Plan::Download(
                Asset {
                    name: asset.name.clone(),
                    browser_download_url: asset.browser_download_url.clone(),
                },
            )
        },
        None => Plan::NoBinary(target),
    }
}

} // verus!
