//! The texts of the tray menu: each entry's title with its shortcut, and
//! the entries of the commit-type submenu. Building the menu is the shell's.

use vstd::prelude::*;
use crate::text::chars_of;

verus! {

/// The global shortcuts of the four tools; empty where none is set.
#[derive(Debug)]
pub struct ShortcutInfo {
    pub env_var_manager: String,
    pub file_search: String,
    pub projects: String,
    pub commit_generator: String,
}

/// A kind of commit offered in the commit-generator submenu.
#[derive(Debug)]
pub struct CommitType {
    pub value: String,
    pub label: String,
    pub icon: String,
}

/// A menu entry's text: its title, then a tab and the shortcut if it has one.
pub open spec fn item_text(title: Seq<char>, shortcut: Seq<char>) -> Seq<char> {
    if shortcut.len() == 0 {
        title
    } else {
        title + "\t"@ + shortcut
    }
}

pub fn tray_item_text(title: &str, shortcut: &str) -> (r: String)
    ensures
        r@ == item_text(title@, shortcut@),
{
    let mut t = String::from_str(title);
    if chars_of(shortcut).len() > 0 {
        t.append("\t");
        t.append(shortcut);
    }
    t
}

/// The texts of the four tool entries.
#[derive(Debug)]
pub struct TrayMenuTexts {
    pub env_var_manager: String,
    pub file_search: String,
    pub projects: String,
    pub commit_generator: String,
}

pub fn tray_menu_texts(s: &ShortcutInfo) -> (r: TrayMenuTexts)
    ensures
        r.env_var_manager@ == item_text("环境变量管理"@, s.env_var_manager@),
        r.file_search@ == item_text("文件搜索"@, s.file_search@),
        r.projects@ == item_text("项目管理"@, s.projects@),
        r.commit_generator@ == item_text("提交生成器"@, s.commit_generator@),
{
    TrayMenuTexts {
        env_var_manager: tray_item_text("环境变量管理", s.env_var_manager.as_str()),
        file_search: tray_item_text("文件搜索", s.file_search.as_str()),
        projects: tray_item_text("项目管理", s.projects.as_str()),
        commit_generator: tray_item_text("提交生成器", s.commit_generator.as_str()),
    }
}

/// A commit type's submenu entry: its id `commit-type-<value>`, and its
/// text, the icon and the label.
pub fn commit_type_item(t: &CommitType) -> (r: (String, String))
    ensures
        r.0@ == "commit-type-"@ + t.value@,
        r.1@ == t.icon@ + " "@ + t.label@,
{
    let mut id = String::from_str("commit-type-");
    id.append(t.value.as_str());
    let mut text = t.icon.clone();
    text.append(" ");
    text.append(t.label.as_str());
    (id, text)
}

} // verus!
