//! The head menu: its entries and their order.

use vstd::prelude::*;

use crate::event::HeadMenuKey;

verus! {

/// One entry of the head menu.
#[allow(non_camel_case_types)]
#[allow(non_snake_case)]
pub struct HEAD_MENU {
    pub Title: String,
    pub Key: HeadMenuKey,
}

/// The three fixed head menu entries, in display order.
pub fn default_menu() -> (r: Vec<HEAD_MENU>)
    ensures
        r@.len() == 3,
        r@[0].Title@ == "我的音乐"@ && r@[0].Key is My,
        r@[1].Title@ == "推荐"@ && r@[1].Key is Maybe,
        r@[2].Title@ == "关于"@ && r@[2].Key is About,
{
    let mut v: Vec<HEAD_MENU> = Vec::new();
    v.push(HEAD_MENU { Title: String::from_str("我的音乐"), Key: HeadMenuKey::My });
    v.push(HEAD_MENU { Title: String::from_str("推荐"), Key: HeadMenuKey::Maybe });
    v.push(HEAD_MENU { Title: String::from_str("关于"), Key: HeadMenuKey::About });
    v
}

} // verus!
