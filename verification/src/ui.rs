//! The pieces of the interface contract that are the core's own: focus
//! bookkeeping, tips, the help table, and the head menu entries.

pub mod focus;
pub mod head;
pub mod help;
pub mod tip;

use vstd::prelude::*;

verus! {

/// A sink for error reports; the interface side implements it over its
/// event channel.
pub trait Wrap {
    fn wrap_error(&self, what: &str, err: &str);
}

/// The global help entries, appended to a screen's own entries.
pub fn global_help(base: Vec<(String, String)>) -> (r: Vec<(String, String)>)
    ensures
        r@.len() == base@.len() + 7,
        forall|i: int| 0 <= i < base@.len() ==> r@[i] == base@[i],
        r@[base@.len() as int].0@ == "space"@ && r@[base@.len() as int].1@ == "开始/暂停"@,
        r@[base@.len() + 1 as int].0@ == "p"@ && r@[base@.len() + 1 as int].1@ == "打开播放列表"@,
        r@[base@.len() + 2 as int].0@ == "</>"@ && r@[base@.len() + 2 as int].1@ == "快退/快进"@,
        r@[base@.len() + 3 as int].0@ == "-/+"@ && r@[base@.len() + 3 as int].1@ == "调整音量"@,
        r@[base@.len() + 4 as int].0@ == "q"@ && r@[base@.len() + 4 as int].1@ == "退出"@,
        r@[base@.len() + 5 as int].0@ == "f"@ && r@[base@.len() + 5 as int].1@ == "搜索"@,
        r@[base@.len() + 6 as int].0@ == "z"@ && r@[base@.len() + 6 as int].1@ == "纯净模式"@,
{
    let mut base = base;
    base.push((String::from_str("space"), String::from_str("开始/暂停")));
    base.push((String::from_str("p"), String::from_str("打开播放列表")));
    base.push((String::from_str("</>"), String::from_str("快退/快进")));
    base.push((String::from_str("-/+"), String::from_str("调整音量")));
    base.push((String::from_str("q"), String::from_str("退出")));
    base.push((String::from_str("f"), String::from_str("搜索")));
    base.push((String::from_str("z"), String::from_str("纯净模式")));
    base
}

} // verus!
