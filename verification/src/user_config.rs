//! The user's settings in the single-file store layout: the display
//! options, the current task list, and the task-list names, read from and
//! written to delimiter-separated lines.
use vstd::prelude::*;

use crate::text::{
    all_digits, bool_seq, bool_to_str, dec_rep, dec_val, join_seq, join_with, parse_usize, str_eq,
    usize_to_string, views_of,
};

verus! {

/// The user's settings for the single-file store layout.
#[derive(Debug)]
pub struct UserConfig {
    pub always_show_id: bool,
    pub smart_id: bool,
    pub smart_id_num: u8,
    pub current_list: String,
    pub display_list_name: bool,
    pub tasklists: Vec<String>,
}

/// The mathematical value of a [`UserConfig`].
#[verifier::ext_equal]
pub ghost struct UserConfigView {
    pub always_show_id: bool,
    pub smart_id: bool,
    pub smart_id_num: u8,
    pub current_list: Seq<char>,
    pub display_list_name: bool,
    pub tasklists: Seq<Seq<char>>,
}

impl View for UserConfig {
    type V = UserConfigView;

    open spec fn view(&self) -> UserConfigView {
        UserConfigView {
            always_show_id: self.always_show_id,
            smart_id: self.smart_id,
            smart_id_num: self.smart_id_num,
            current_list: self.current_list@,
            display_list_name: self.display_list_name,
            tasklists: views_of(self.tasklists@),
        }
    }
}

/// The default smart-id threshold of the single-file layout.
pub open spec fn default_smart_id_num() -> u8 {
    5
}

/// What the threshold field of a settings line parses to: its value when it
/// is a digit string whose value fits in a byte, the default otherwise.
pub open spec fn parse_smart_id_num(s: Seq<char>) -> u8 {
    if s.len() >= 1 && all_digits(s) && dec_val(s) <= u8::MAX {
        dec_val(s) as u8
    } else {
        default_smart_id_num()
    }
}

impl UserConfig {
    /// The view of the default settings: one list, "Default", which is
    /// current.
    pub open spec fn default_view() -> UserConfigView {
        UserConfigView {
            always_show_id: false,
            smart_id: true,
            smart_id_num: default_smart_id_num(),
            current_list: "Default"@,
            display_list_name: false,
            tasklists: seq!["Default"@],
        }
    }

    /// Builds the settings from the fields of a settings line. A line with
    /// the wrong number of fields yields the default settings; a malformed
    /// field yields that field's default. The list names live on a separate
    /// line, so `tasklists` starts empty.
    pub fn build(args: Vec<String>) -> (r: UserConfig)
        ensures
            args@.len() != 5 ==> r@ == Self::default_view(),
            args@.len() == 5 ==> r@ == (UserConfigView {
                always_show_id: args@[0]@ == "true"@,
                smart_id: args@[1]@ != "false"@,
                smart_id_num: parse_smart_id_num(args@[2]@),
                current_list: args@[3]@,
                display_list_name: args@[4]@ == "true"@,
                tasklists: Seq::empty(),
            }),
    {
        if args.len() != 5 {
            return Self::default();
        }
        let always_show_id = str_eq(args[0].as_str(), "true");
        let smart_id = !str_eq(args[1].as_str(), "false");
        let display_list_name = str_eq(args[4].as_str(), "true");
        let smart_id_num: u8 = match parse_usize(args[2].as_str()) {
            Some(n) => if n <= 255 {
                n as u8
            } else {
                5
            },
            None => 5,
        };
        let current_list = args[3].clone();
        let tasklists: Vec<String> = Vec::new();
        let r = UserConfig {
            always_show_id,
            smart_id,
            smart_id_num,
            current_list,
            tasklists,
            display_list_name,
        };
        proof {
            assert(r@.tasklists =~= Seq::<Seq<char>>::empty());
            assert(r@ =~= (UserConfigView {
                always_show_id: args@[0]@ == "true"@,
                smart_id: args@[1]@ != "false"@,
                smart_id_num: parse_smart_id_num(args@[2]@),
                current_list: args@[3]@,
                display_list_name: args@[4]@ == "true"@,
                tasklists: Seq::empty(),
            }));
        }
        r
    }

    /// The default settings: ids on demand, smart ids at five tasks, one
    /// list named "Default".
    pub fn default() -> (r: UserConfig)
        ensures
            r@ == Self::default_view(),
    {
        let mut tasklists: Vec<String> = Vec::new();
        tasklists.push(String::from_str("Default"));
        let r = UserConfig {
            always_show_id: false,
            smart_id: true,
            smart_id_num: 5,
            current_list: String::from_str("Default"),
            tasklists,
            display_list_name: false,
        };
        proof {
            assert(r@.tasklists =~= seq!["Default"@]);
            assert(r@ =~= Self::default_view());
        }
        r
    }

    /// Renders the settings line: the five fields, `|`-separated, ending in
    /// a line break.
    pub fn to_save_format(&self) -> (r: String)
        ensures
            r@ == bool_seq(self@.always_show_id) + "|"@ + bool_seq(self@.smart_id) + "|"@
                + dec_rep(self@.smart_id_num as nat) + "|"@ + self@.current_list + "|"@ + bool_seq(
                self@.display_list_name,
            ) + "\n"@,
    {
        let mut out = String::new();
        out.append(bool_to_str(self.always_show_id));
        out.append("|");
        out.append(bool_to_str(self.smart_id));
        out.append("|");
        let num = usize_to_string(self.smart_id_num as usize);
        out.append(num.as_str());
        out.append("|");
        out.append(self.current_list.as_str());
        out.append("|");
        out.append(bool_to_str(self.display_list_name));
        out.append("\n");
        out
    }

    /// Renders the list-names line: the names, `|`-separated, ending in a
    /// line break. There is always at least one list.
    pub fn tasklists_to_save_format(&self) -> (r: String)
        requires
            self@.tasklists.len() >= 1,
        ensures
            r@ == join_seq(self@.tasklists, '|') + "\n"@,
    {
        proof {
            reveal_strlit("|");
        }
        let mut out = join_with(&self.tasklists, "|");
        out.append("\n");
        out
    }
}

} // verus!
