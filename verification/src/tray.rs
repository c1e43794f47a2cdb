//! The items of the tray icon's menu.

use vstd::prelude::*;

verus! {

/// One item of the tray menu: the id its click reports and the label shown.
#[derive(Clone, Copy, Debug)]
pub struct TrayMenuItemSpec {
    pub id: &'static str,
    pub label: &'static str,
}

/// The menu, top to bottom: show or hide the overlay, open the settings,
/// quit. Connecting and disconnecting are left to the overlay itself.
pub open spec fn tray_menu() -> Seq<(Seq<char>, Seq<char>)> {
    seq![("show"@, "显示/隐藏"@), ("settings"@, "设置"@), ("quit"@, "退出"@)]
}

pub fn tray_menu_item_specs() -> (r: [TrayMenuItemSpec; 3])
    ensures
        r@.map_values(|item: TrayMenuItemSpec| (item.id@, item.label@)) == tray_menu(),
{
    let r = [
        TrayMenuItemSpec { id: "show", label: "显示/隐藏" },
        TrayMenuItemSpec { id: "settings", label: "设置" },
        TrayMenuItemSpec { id: "quit", label: "退出" },
    ];
    assert(r@.map_values(|item: TrayMenuItemSpec| (item.id@, item.label@)) =~= tray_menu());
    r
}

/// The tray menu offers no disconnect or reconnect action.
pub proof fn law_tray_menu_has_no_connection_actions()
    ensures
        forall|i: int|
            0 <= i < tray_menu().len() ==> #[trigger] tray_menu()[i].0 != "disconnect"@
                && tray_menu()[i].0 != "reconnect"@,
{
    reveal_strlit("show");
    reveal_strlit("settings");
    reveal_strlit("quit");
    reveal_strlit("disconnect");
    reveal_strlit("reconnect");
    assert forall|i: int|
        0 <= i < tray_menu().len() implies #[trigger] tray_menu()[i].0 != "disconnect"@
            && tray_menu()[i].0 != "reconnect"@ by {
        assert(tray_menu()[0].0.len() == 4);
        assert(tray_menu()[1].0.len() == 8);
        assert(tray_menu()[2].0.len() == 4);
        assert("disconnect"@.len() == 10);
        assert("reconnect"@.len() == 9);
    }
}

} // verus!
