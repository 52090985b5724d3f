//! The browser catalog: which Chromium-family browsers the tool knows, where
//! each keeps its application binary and its user data, and which of them
//! count as installed given the outcome of the existence checks.
//!
//! Paths are fixed at compile time, relative to the user's home directory
//! for the data directory and absolute for the application candidates; the
//! caller performs the filesystem existence checks and hands the verdicts
//! back as plain booleans.

use vstd::prelude::*;

verus! {

/// The supported browsers.
#[derive(Clone, Copy, PartialEq, Eq, Hash, Debug, Structural)]
pub enum Browser {
    Chrome,
    Edge,
    Brave,
}

/// Where one browser lives: candidate application paths, the user-facing
/// application name, and the profile-root data directory relative to the
/// user's home directory.
pub struct BrowserInfo {
    pub app_path: Vec<String>,
    pub app_name: String,
    pub data_dir: String,
}

/// The user-facing name of a browser.
pub open spec fn browser_name(b: Browser) -> Seq<char> {
    match b {
        Browser::Chrome => "Google Chrome"@,
        Browser::Edge => "Microsoft Edge"@,
        Browser::Brave => "Brave Browser"@,
    }
}

/// A browser's profile-root directory, relative to the home directory.
pub open spec fn browser_data_dir(b: Browser) -> Seq<char> {
    match b {
        Browser::Chrome => "Library/Application Support/Google/Chrome"@,
        Browser::Edge => "Library/Application Support/Microsoft Edge"@,
        Browser::Brave => "Library/Application Support/BraveSoftware/Brave-Browser"@,
    }
}

/// A browser's candidate application paths; it is installed when at least
/// one of them exists.
pub open spec fn browser_app_paths(b: Browser) -> Seq<Seq<char>> {
    match b {
        Browser::Chrome => seq![
            "/Applications/Google Chrome.app/Contents/MacOS/Google Chrome"@,
        ],
        Browser::Edge => seq!["/Applications/Microsoft Edge.app/Contents/MacOS/Microsoft Edge"@],
        Browser::Brave => seq!["/Applications/Brave Browser.app/Contents/MacOS/Brave Browser"@],
    }
}

/// Whether a [`BrowserInfo`] value carries exactly the catalog entries of
/// the given browser.
pub open spec fn info_for(info: BrowserInfo, b: Browser) -> bool {
    &&& info.app_name@ == browser_name(b)
    &&& info.data_dir@ == browser_data_dir(b)
    &&& info.app_path@.len() == browser_app_paths(b).len()
    &&& forall|i: int|
        0 <= i < info.app_path@.len() ==> #[trigger] info.app_path@[i]@ == browser_app_paths(b)[i]
}

/// Returns the catalog entry of one browser.
pub fn get_path(browser: &Browser) -> (r: BrowserInfo)
    ensures
        info_for(r, *browser),
{
    match browser {
        Browser::Chrome => BrowserInfo {
            app_path: vec![
                "/Applications/Google Chrome.app/Contents/MacOS/Google Chrome".to_owned(),
            ],
            app_name: "Google Chrome".to_owned(),
            data_dir: "Library/Application Support/Google/Chrome".to_owned(),
        },
        Browser::Edge => BrowserInfo {
            app_path: vec![
                "/Applications/Microsoft Edge.app/Contents/MacOS/Microsoft Edge".to_owned(),
            ],
            app_name: "Microsoft Edge".to_owned(),
            data_dir: "Library/Application Support/Microsoft Edge".to_owned(),
        },
        Browser::Brave => BrowserInfo {
            app_path: vec![
                "/Applications/Brave Browser.app/Contents/MacOS/Brave Browser".to_owned(),
            ],
            app_name: "Brave Browser".to_owned(),
            data_dir: "Library/Application Support/BraveSoftware/Brave-Browser".to_owned(),
        },
    }
}

/// Whether any of the existence verdicts is positive.
pub open spec fn any_true(s: Seq<bool>) -> bool {
    exists|i: int| 0 <= i < s.len() && s[i]
}

/// The browsers that count as installed, in their catalog order: those
/// whose verdict row holds at least one positive existence check.
pub open spec fn installed_subseq(bs: Seq<Browser>, ps: Seq<Seq<bool>>) -> Seq<Browser>
    decreases bs,
{
    if bs.len() == 0 {
        Seq::empty()
    } else {
        (if any_true(ps[0]) {
            seq![bs[0]]
        } else {
            Seq::empty()
        }) + installed_subseq(bs.drop_first(), ps.drop_first())
    }
}

/// Whether any entry of a verdict row is positive.
fn any_true_vec(v: &Vec<bool>) -> (b: bool)
    ensures
        b == any_true(v@),
{
    let mut i: usize = 0;
    while i < v.len()
        invariant
            i <= v@.len(),
            forall|k: int| 0 <= k < i ==> !v@[k],
        decreases v@.len() - i,
    {
        if v[i] {
            return true;
        }
        i = i + 1;
    }
    false
}

/// The catalog entries of the installed browsers among `browsers[i..]`.
fn get_browser_info_from(browsers: &Vec<Browser>, present: &Vec<Vec<bool>>, i: usize) -> (r: Vec<
    (Browser, BrowserInfo),
>)
    requires
        browsers@.len() == present@.len(),
        i <= browsers@.len(),
    ensures
        r@.len() == installed_subseq(
            browsers@.skip(i as int),
            present@.map_values(|p: Vec<bool>| p@).skip(i as int),
        ).len(),
        forall|k: int|
            0 <= k < r@.len() ==> #[trigger] r@[k].0 == installed_subseq(
                browsers@.skip(i as int),
                present@.map_values(|p: Vec<bool>| p@).skip(i as int),
            )[k] && info_for(r@[k].1, r@[k].0),
    decreases browsers@.len() - i,
{
    let ghost bs = browsers@.skip(i as int);
    let ghost ps = present@.map_values(|p: Vec<bool>| p@).skip(i as int);
    if i == browsers.len() {
        let r: Vec<(Browser, BrowserInfo)> = Vec::new();
        proof {
            assert(bs =~= Seq::<Browser>::empty());
        }
        r
    } else {
        proof {
            assert(bs[0] == browsers@[i as int]);
            assert(ps[0] == present@[i as int]@);
            assert(bs.drop_first() =~= browsers@.skip(i as int + 1));
            assert(ps.drop_first() =~= present@.map_values(|p: Vec<bool>| p@).skip(i as int + 1));
        }
        let mut rest = get_browser_info_from(browsers, present, i + 1);
        if any_true_vec(&present[i]) {
            let b = browsers[i];
            let mut r: Vec<(Browser, BrowserInfo)> = Vec::new();
            r.push((b, get_path(&b)));
            r.append(&mut rest);
            proof {
                assert(installed_subseq(bs, ps) =~= seq![bs[0]] + installed_subseq(
                    bs.drop_first(),
                    ps.drop_first(),
                ));
            }
            r
        } else {
            proof {
                assert(installed_subseq(bs, ps) =~= installed_subseq(
                    bs.drop_first(),
                    ps.drop_first(),
                ));
            }
            rest
        }
    }
}

/// For each browser, given one existence verdict per candidate application
/// path, returns the catalog entries of the installed browsers — those with
/// at least one positive verdict — in catalog order.
pub fn get_browser_info(browsers: &Vec<Browser>, present: &Vec<Vec<bool>>) -> (r: Vec<
    (Browser, BrowserInfo),
>)
    requires
        browsers@.len() == present@.len(),
    ensures
        r@.len() == installed_subseq(browsers@, present@.map_values(|p: Vec<bool>| p@)).len(),
        forall|k: int|
            0 <= k < r@.len() ==> #[trigger] r@[k].0 == installed_subseq(
                browsers@,
                present@.map_values(|p: Vec<bool>| p@),
            )[k] && info_for(r@[k].1, r@[k].0),
{
    let r = get_browser_info_from(browsers, present, 0);
    proof {
        assert(browsers@.skip(0) =~= browsers@);
        assert(present@.map_values(|p: Vec<bool>| p@).skip(0) =~= present@.map_values(
            |p: Vec<bool>| p@,
        ));
    }
    r
}

} // verus!
