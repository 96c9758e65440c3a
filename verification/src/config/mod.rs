use vstd::prelude::*;

use crate::platform::Platform;

verus! {

#[derive(Debug, Clone, PartialEq)]
pub struct ZhihuConfig {
    pub cookie: String,
}

#[derive(Debug, Clone, PartialEq)]
pub struct NgaConfig {
    pub cookie: String,
}

#[derive(Debug, Clone, PartialEq)]
pub struct LinuxDoConfig {
    pub cookie: String,
}

/// A stock on the watch list: its code and the name last seen for it.
#[derive(Debug, Clone, PartialEq, Eq)]
pub struct StockWatchItem {
    pub code: String,
    pub name: String,
}

#[derive(Debug, Clone, PartialEq)]
pub struct StockConfig {
    pub watchlist: Vec<StockWatchItem>,
}

/// The user's settings: one cookie per cookie-gated site and the stock watch list.
#[derive(Debug, Clone, PartialEq)]
pub struct Config {
    pub zhihu: ZhihuConfig,
    pub nga: NgaConfig,
    pub linuxdo: LinuxDoConfig,
    pub stock: StockConfig,
}

impl Default for ZhihuConfig {
    fn default() -> (c: Self)
        ensures
            c.cookie@.len() == 0,
    {
        ZhihuConfig { cookie: String::new() }
    }
}

impl Default for NgaConfig {
    fn default() -> (c: Self)
        ensures
            c.cookie@.len() == 0,
    {
        NgaConfig { cookie: String::new() }
    }
}

impl Default for LinuxDoConfig {
    fn default() -> (c: Self)
        ensures
            c.cookie@.len() == 0,
    {
        LinuxDoConfig { cookie: String::new() }
    }
}

impl Default for StockWatchItem {
    fn default() -> (c: Self)
        ensures
            c.code@.len() == 0,
            c.name@.len() == 0,
    {
        StockWatchItem { code: String::new(), name: String::new() }
    }
}

impl Default for StockConfig {
    fn default() -> (c: Self)
        ensures
            c.watchlist@.len() == 0,
    {
        StockConfig { watchlist: Vec::new() }
    }
}

impl Default for Config {
    fn default() -> (c: Self)
        ensures
            c.zhihu.cookie@.len() == 0,
            c.nga.cookie@.len() == 0,
            c.linuxdo.cookie@.len() == 0,
            c.stock.watchlist@.len() == 0,
    {
        Config {
            zhihu: ZhihuConfig { cookie: String::new() },
            nga: NgaConfig { cookie: String::new() },
            linuxdo: LinuxDoConfig { cookie: String::new() },
            stock: StockConfig { watchlist: Vec::new() },
        }
    }
}

/// The cookie stored for a platform; platforms without a stored cookie have
/// the empty one.
pub open spec fn spec_cookie_for(c: Config, p: Platform) -> Seq<char> {
    match p {
        Platform::Zhihu => c.zhihu.cookie@,
        Platform::Nga => c.nga.cookie@,
        Platform::LinuxDo => c.linuxdo.cookie@,
        _ => Seq::empty(),
    }
}

/// Whether the configuration stores a cookie for the platform.
pub open spec fn stores_cookie(p: Platform) -> bool {
    p == Platform::Zhihu || p == Platform::Nga || p == Platform::LinuxDo
}

impl Config {
    pub fn cookie_for(&self, p: Platform) -> (s: String)
        ensures
            s@ == spec_cookie_for(*self, p),
    {
        match p {
            Platform::Zhihu => self.zhihu.cookie.clone(),
            Platform::Nga => self.nga.cookie.clone(),
            Platform::LinuxDo => self.linuxdo.cookie.clone(),
            _ => String::new(),
        }
    }

    /// Store the cookie of a platform; platforms that take none are ignored.
    pub fn set_cookie_for(&mut self, p: Platform, cookie: String)
        ensures
            stores_cookie(p) ==> spec_cookie_for(*final(self), p) == cookie@,
            !stores_cookie(p) ==> *final(self) == *old(self),
            forall|q: Platform| q != p ==> spec_cookie_for(*final(self), q) == spec_cookie_for(*old(self), q),
            final(self).stock == old(self).stock,
    {
        match p {
            Platform::Zhihu => self.zhihu.cookie = cookie,
            Platform::Nga => self.nga.cookie = cookie,
            Platform::LinuxDo => self.linuxdo.cookie = cookie,
            _ => {},
        }
    }
}

} // verus!
