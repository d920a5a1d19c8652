//! Setting the options of the user's settings from option-name/value pairs
//! already split by the caller.
use vstd::prelude::*;

use crate::text::{all_digits, dec_rep, dec_val, parse_usize, str_eq, usize_to_string};
use crate::user_config::{UserConfig, UserConfigView};

verus! {

/// Makes the given task list current; fails on an empty name or a name
/// that matches no list, leaving the settings unchanged.
pub fn set_current_tasklist(users_config: &mut UserConfig, new_tasklist: String) -> (r: Result<
    String,
    &'static str,
>)
    ensures
        new_tasklist@.len() == 0 ==> ({
            &&& r matches Err(e)
            &&& e@ == "No tasklist name supplied!"@
            &&& final(users_config)@ == old(users_config)@
        }),
        new_tasklist@.len() > 0 && old(users_config)@.tasklists.contains(new_tasklist@) ==> ({
            &&& r matches Ok(s)
            &&& s@ == "Switched to "@ + new_tasklist@ + " list!"@
            &&& final(users_config)@ == (UserConfigView {
                current_list: new_tasklist@,
                ..old(users_config)@
            })
        }),
        new_tasklist@.len() > 0 && !old(users_config)@.tasklists.contains(new_tasklist@) ==> ({
            &&& r matches Err(e)
            &&& e@ == "Tasklist doesn't exist!"@
            &&& final(users_config)@ == old(users_config)@
        }),
{
    if new_tasklist.as_str().is_empty() {
        return Err("No tasklist name supplied!");
    }
    if crate::text::contains_name(&users_config.tasklists, &new_tasklist) {
        users_config.current_list = new_tasklist;
        let mut message = String::new();
        message.append("Switched to ");
        message.append(users_config.current_list.as_str());
        message.append(" list!");
        Ok(message)
    } else {
        Err("Tasklist doesn't exist!")
    }
}

/// Sets the smart-id option from its token; fails on any token other than
/// "true" or "false", leaving the settings unchanged.
pub fn set_smart_id(users_config: &mut UserConfig, value: &str) -> (r: Result<
    String,
    &'static str,
>)
    ensures
        value@ == "true"@ ==> ({
            &&& r matches Ok(s)
            &&& s@ == "Task Id's will now show when there are "@ + dec_rep(
                old(users_config)@.smart_id_num as nat,
            ) + " or more tasks!"@
            &&& final(users_config)@ == (UserConfigView { smart_id: true, ..old(users_config)@ })
        }),
        value@ == "false"@ ==> ({
            &&& r matches Ok(s)
            &&& s@ == "Disabled smart id!"@
            &&& final(users_config)@ == (UserConfigView { smart_id: false, ..old(users_config)@ })
        }),
        value@ != "true"@ && value@ != "false"@ ==> ({
            &&& r matches Err(e)
            &&& e@ == "Invalid option, Must be either true or false!"@
            &&& final(users_config)@ == old(users_config)@
        }),
{
    proof {
        crate::text::lemma_bool_tokens_distinct();
    }
    if str_eq(value, "true") {
        users_config.smart_id = true;
        let mut message = String::new();
        message.append("Task Id's will now show when there are ");
        let num = usize_to_string(users_config.smart_id_num as usize);
        message.append(num.as_str());
        message.append(" or more tasks!");
        Ok(message)
    } else if str_eq(value, "false") {
        users_config.smart_id = false;
        Ok(String::from_str("Disabled smart id!"))
    } else {
        Err("Invalid option, Must be either true or false!")
    }
}

/// Sets the display-list-name option from its token; fails on any token
/// other than "true" or "false", leaving the settings unchanged.
pub fn set_display_list_name(users_config: &mut UserConfig, value: &str) -> (r: Result<
    &'static str,
    &'static str,
>)
    ensures
        value@ == "true"@ ==> ({
            &&& r matches Ok(s)
            &&& s@ == "Displaying the tasklist name above the tasklist enabled!"@
            &&& final(users_config)@ == (UserConfigView {
                display_list_name: true,
                ..old(users_config)@
            })
        }),
        value@ == "false"@ ==> ({
            &&& r matches Ok(s)
            &&& s@ == "Displaying the tasklist name above the tasklist disabled!"@
            &&& final(users_config)@ == (UserConfigView {
                display_list_name: false,
                ..old(users_config)@
            })
        }),
        value@ != "true"@ && value@ != "false"@ ==> ({
            &&& r matches Err(e)
            &&& e@ == "Invalid option, Must be either true or false!"@
            &&& final(users_config)@ == old(users_config)@
        }),
{
    proof {
        crate::text::lemma_bool_tokens_distinct();
    }
    if str_eq(value, "true") {
        users_config.display_list_name = true;
        Ok("Displaying the tasklist name above the tasklist enabled!")
    } else if str_eq(value, "false") {
        users_config.display_list_name = false;
        Ok("Displaying the tasklist name above the tasklist disabled!")
    } else {
        Err("Invalid option, Must be either true or false!")
    }
}

/// Sets the smart-id threshold from its digits; fails on anything that is
/// not a number fitting the threshold field, leaving the settings
/// unchanged.
pub fn set_num_of_tasks(users_config: &mut UserConfig, value: &str) -> (r: Result<
    String,
    &'static str,
>)
    ensures
        value@.len() >= 1 && all_digits(value@) && dec_val(value@) <= u8::MAX ==> ({
            &&& r matches Ok(s)
            &&& s@ == "Task Id's will now show up when there are "@ + dec_rep(dec_val(value@))
                + " or more Tasks!"@
            &&& final(users_config)@ == (UserConfigView {
                smart_id_num: dec_val(value@) as u8,
                ..old(users_config)@
            })
        }),
        !(value@.len() >= 1 && all_digits(value@) && dec_val(value@) <= u8::MAX) ==> ({
            &&& r matches Err(e)
            &&& e@ == "Incorrect value, must be an integer!"@
            &&& final(users_config)@ == old(users_config)@
        }),
{
    let num_of_tasks: u8 = match parse_usize(value) {
        Some(n) => if n <= 255 {
            n as u8
        } else {
            return Err("Incorrect value, must be an integer!");
        },
        None => {
            return Err("Incorrect value, must be an integer!");
        },
    };
    users_config.smart_id_num = num_of_tasks;
    let mut message = String::new();
    message.append("Task Id's will now show up when there are ");
    let num = usize_to_string(num_of_tasks as usize);
    message.append(num.as_str());
    message.append(" or more Tasks!");
    Ok(message)
}

/// Sets the always-show-id option from its token; fails on any token other
/// than "true" or "false", leaving the settings unchanged.
pub fn set_always_show_id(users_config: &mut UserConfig, value: &str) -> (r: Result<
    String,
    &'static str,
>)
    ensures
        value@ == "true"@ ==> ({
            &&& r matches Ok(s)
            &&& s@ == "Enabled always showing Task Id's!"@
            &&& final(users_config)@ == (UserConfigView {
                always_show_id: true,
                ..old(users_config)@
            })
        }),
        value@ == "false"@ ==> ({
            &&& r matches Ok(s)
            &&& s@ == "Disabled always showing Task Id's!"@
            &&& final(users_config)@ == (UserConfigView {
                always_show_id: false,
                ..old(users_config)@
            })
        }),
        value@ != "true"@ && value@ != "false"@ ==> ({
            &&& r matches Err(e)
            &&& e@ == "Invalid option, Must be either true or false!"@
            &&& final(users_config)@ == old(users_config)@
        }),
{
    proof {
        crate::text::lemma_bool_tokens_distinct();
    }
    if str_eq(value, "true") {
        users_config.always_show_id = true;
        Ok(String::from_str("Enabled always showing Task Id's!"))
    } else if str_eq(value, "false") {
        users_config.always_show_id = false;
        Ok(String::from_str("Disabled always showing Task Id's!"))
    } else {
        Err("Invalid option, Must be either true or false!")
    }
}

} // verus!
