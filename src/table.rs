//! The fixed layout of a power box's property table, and lookup by name.
use vstd::prelude::*;
use vstd::string::StrSliceExecFns;
use vstd::string::StringExecFns;
use crate::properties::{fits_kind, views, Kind, Permission, Property, PropertyView};

verus! {

/// Position of the firmware version in the table.
pub const FIRMWARE_INDEX: usize = 22;

/// An entry of the table as plain values.
pub open spec fn entry_view(name: &str, kind: Kind, permission: Permission, value: &str) -> PropertyView {
    PropertyView { name: name@, value: value@, kind, permission }
}

/// The table of a freshly connected power box: the readings of the three
/// fetch groups in protocol order, then the two write-only controls, then
/// the firmware version.
pub open spec fn initial_table() -> Seq<PropertyView> {
    seq![
        entry_view("average_amps", Kind::Float, Permission::ReadOnly, "0"),
        entry_view("amps_hours", Kind::Float, Permission::ReadOnly, "0"),
        entry_view("watt_hours", Kind::Float, Permission::ReadOnly, "0"),
        entry_view("uptime", Kind::Integer, Permission::ReadOnly, "0"),
        entry_view("total_current", Kind::Float, Permission::ReadOnly, "0"),
        entry_view("current_12V_output", Kind::Float, Permission::ReadOnly, "0"),
        entry_view("current_dewA", Kind::Float, Permission::ReadOnly, "0"),
        entry_view("current_dewB", Kind::Float, Permission::ReadOnly, "0"),
        entry_view("input_voltage", Kind::Float, Permission::ReadOnly, "0"),
        entry_view("current", Kind::Float, Permission::ReadOnly, "0"),
        entry_view("temp", Kind::Float, Permission::ReadOnly, "0"),
        entry_view("humidity", Kind::Float, Permission::ReadOnly, "0"),
        entry_view("dew_point", Kind::Float, Permission::ReadOnly, "0"),
        entry_view("quadport_status", Kind::Boolean, Permission::ReadWrite, "0"),
        entry_view("adj_output_status", Kind::Boolean, Permission::ReadOnly, "0"),
        entry_view("dew1_power", Kind::Integer, Permission::ReadWrite, "0"),
        entry_view("dew2_power", Kind::Integer, Permission::ReadWrite, "0"),
        entry_view("autodew_bool", Kind::Boolean, Permission::ReadOnly, "0"),
        entry_view("pwr_warn", Kind::Boolean, Permission::ReadOnly, "0"),
        entry_view("adjustable_output", Kind::Integer, Permission::ReadWrite, "0"),
        entry_view("reboot", Kind::Boolean, Permission::WriteOnly, "0"),
        entry_view("power_status_on_boot", Kind::Text, Permission::WriteOnly, "1111"),
        entry_view("firmware_version", Kind::Text, Permission::ReadOnly, "UNKNOWN")
    ]
}

/// No two entries of the initial table share a name.
pub proof fn lemma_initial_names_distinct()
    ensures
        forall|i: int, j: int|
            0 <= i < j < initial_table().len() ==> #[trigger] initial_table()[i].name != #[trigger] initial_table()[j].name,
{
    reveal_strlit("average_amps");
    reveal_strlit("amps_hours");
    reveal_strlit("watt_hours");
    reveal_strlit("uptime");
    reveal_strlit("total_current");
    reveal_strlit("current_12V_output");
    reveal_strlit("current_dewA");
    reveal_strlit("current_dewB");
    reveal_strlit("input_voltage");
    reveal_strlit("current");
    reveal_strlit("temp");
    reveal_strlit("humidity");
    reveal_strlit("dew_point");
    reveal_strlit("quadport_status");
    reveal_strlit("adj_output_status");
    reveal_strlit("dew1_power");
    reveal_strlit("dew2_power");
    reveal_strlit("autodew_bool");
    reveal_strlit("pwr_warn");
    reveal_strlit("adjustable_output");
    reveal_strlit("reboot");
    reveal_strlit("power_status_on_boot");
    reveal_strlit("firmware_version");
    let t = initial_table();
    assert forall|i: int, j: int| 0 <= i < j < t.len() implies #[trigger] t[i].name != #[trigger] t[j].name by {
        if i == 0 {
            if j == 1 {
                assert(t[0].name.len() != t[1].name.len());
            } else if j == 2 {
                assert(t[0].name.len() != t[2].name.len());
            } else if j == 3 {
                assert(t[0].name.len() != t[3].name.len());
            } else if j == 4 {
                assert(t[0].name.len() != t[4].name.len());
            } else if j == 5 {
                assert(t[0].name.len() != t[5].name.len());
            } else if j == 6 {
                assert(t[0].name[0] != t[6].name[0]);
            } else if j == 7 {
                assert(t[0].name[0] != t[7].name[0]);
            } else if j == 8 {
                assert(t[0].name.len() != t[8].name.len());
            } else if j == 9 {
                assert(t[0].name.len() != t[9].name.len());
            } else if j == 10 {
                assert(t[0].name.len() != t[10].name.len());
            } else if j == 11 {
                assert(t[0].name.len() != t[11].name.len());
            } else if j == 12 {
                assert(t[0].name.len() != t[12].name.len());
            } else if j == 13 {
                assert(t[0].name.len() != t[13].name.len());
            } else if j == 14 {
                assert(t[0].name.len() != t[14].name.len());
            } else if j == 15 {
                assert(t[0].name.len() != t[15].name.len());
            } else if j == 16 {
                assert(t[0].name.len() != t[16].name.len());
            } else if j == 17 {
                assert(t[0].name[1] != t[17].name[1]);
            } else if j == 18 {
                assert(t[0].name.len() != t[18].name.len());
            } else if j == 19 {
                assert(t[0].name.len() != t[19].name.len());
            } else if j == 20 {
                assert(t[0].name.len() != t[20].name.len());
            } else if j == 21 {
                assert(t[0].name.len() != t[21].name.len());
            } else if j == 22 {
                assert(t[0].name.len() != t[22].name.len());
            }
        } else if i == 1 {
            if j == 2 {
                assert(t[1].name[0] != t[2].name[0]);
            } else if j == 3 {
                assert(t[1].name.len() != t[3].name.len());
            } else if j == 4 {
                assert(t[1].name.len() != t[4].name.len());
            } else if j == 5 {
                assert(t[1].name.len() != t[5].name.len());
            } else if j == 6 {
                assert(t[1].name.len() != t[6].name.len());
            } else if j == 7 {
                assert(t[1].name.len() != t[7].name.len());
            } else if j == 8 {
                assert(t[1].name.len() != t[8].name.len());
            } else if j == 9 {
                assert(t[1].name.len() != t[9].name.len());
            } else if j == 10 {
                assert(t[1].name.len() != t[10].name.len());
            } else if j == 11 {
                assert(t[1].name.len() != t[11].name.len());
            } else if j == 12 {
                assert(t[1].name.len() != t[12].name.len());
            } else if j == 13 {
                assert(t[1].name.len() != t[13].name.len());
            } else if j == 14 {
                assert(t[1].name.len() != t[14].name.len());
            } else if j == 15 {
                assert(t[1].name[0] != t[15].name[0]);
            } else if j == 16 {
                assert(t[1].name[0] != t[16].name[0]);
            } else if j == 17 {
                assert(t[1].name.len() != t[17].name.len());
            } else if j == 18 {
                assert(t[1].name.len() != t[18].name.len());
            } else if j == 19 {
                assert(t[1].name.len() != t[19].name.len());
            } else if j == 20 {
                assert(t[1].name.len() != t[20].name.len());
            } else if j == 21 {
                assert(t[1].name.len() != t[21].name.len());
            } else if j == 22 {
                assert(t[1].name.len() != t[22].name.len());
            }
        } else if i == 2 {
            if j == 3 {
                assert(t[2].name.len() != t[3].name.len());
            } else if j == 4 {
                assert(t[2].name.len() != t[4].name.len());
            } else if j == 5 {
                assert(t[2].name.len() != t[5].name.len());
            } else if j == 6 {
                assert(t[2].name.len() != t[6].name.len());
            } else if j == 7 {
                assert(t[2].name.len() != t[7].name.len());
            } else if j == 8 {
                assert(t[2].name.len() != t[8].name.len());
            } else if j == 9 {
                assert(t[2].name.len() != t[9].name.len());
            } else if j == 10 {
                assert(t[2].name.len() != t[10].name.len());
            } else if j == 11 {
                assert(t[2].name.len() != t[11].name.len());
            } else if j == 12 {
                assert(t[2].name.len() != t[12].name.len());
            } else if j == 13 {
                assert(t[2].name.len() != t[13].name.len());
            } else if j == 14 {
                assert(t[2].name.len() != t[14].name.len());
            } else if j == 15 {
                assert(t[2].name[0] != t[15].name[0]);
            } else if j == 16 {
                assert(t[2].name[0] != t[16].name[0]);
            } else if j == 17 {
                assert(t[2].name.len() != t[17].name.len());
            } else if j == 18 {
                assert(t[2].name.len() != t[18].name.len());
            } else if j == 19 {
                assert(t[2].name.len() != t[19].name.len());
            } else if j == 20 {
                assert(t[2].name.len() != t[20].name.len());
            } else if j == 21 {
                assert(t[2].name.len() != t[21].name.len());
            } else if j == 22 {
                assert(t[2].name.len() != t[22].name.len());
            }
        } else if i == 3 {
            if j == 4 {
                assert(t[3].name.len() != t[4].name.len());
            } else if j == 5 {
                assert(t[3].name.len() != t[5].name.len());
            } else if j == 6 {
                assert(t[3].name.len() != t[6].name.len());
            } else if j == 7 {
                assert(t[3].name.len() != t[7].name.len());
            } else if j == 8 {
                assert(t[3].name.len() != t[8].name.len());
            } else if j == 9 {
                assert(t[3].name.len() != t[9].name.len());
            } else if j == 10 {
                assert(t[3].name.len() != t[10].name.len());
            } else if j == 11 {
                assert(t[3].name.len() != t[11].name.len());
            } else if j == 12 {
                assert(t[3].name.len() != t[12].name.len());
            } else if j == 13 {
                assert(t[3].name.len() != t[13].name.len());
            } else if j == 14 {
                assert(t[3].name.len() != t[14].name.len());
            } else if j == 15 {
                assert(t[3].name.len() != t[15].name.len());
            } else if j == 16 {
                assert(t[3].name.len() != t[16].name.len());
            } else if j == 17 {
                assert(t[3].name.len() != t[17].name.len());
            } else if j == 18 {
                assert(t[3].name.len() != t[18].name.len());
            } else if j == 19 {
                assert(t[3].name.len() != t[19].name.len());
            } else if j == 20 {
                assert(t[3].name[0] != t[20].name[0]);
            } else if j == 21 {
                assert(t[3].name.len() != t[21].name.len());
            } else if j == 22 {
                assert(t[3].name.len() != t[22].name.len());
            }
        } else if i == 4 {
            if j == 5 {
                assert(t[4].name.len() != t[5].name.len());
            } else if j == 6 {
                assert(t[4].name.len() != t[6].name.len());
            } else if j == 7 {
                assert(t[4].name.len() != t[7].name.len());
            } else if j == 8 {
                assert(t[4].name[0] != t[8].name[0]);
            } else if j == 9 {
                assert(t[4].name.len() != t[9].name.len());
            } else if j == 10 {
                assert(t[4].name.len() != t[10].name.len());
            } else if j == 11 {
                assert(t[4].name.len() != t[11].name.len());
            } else if j == 12 {
                assert(t[4].name.len() != t[12].name.len());
            } else if j == 13 {
                assert(t[4].name.len() != t[13].name.len());
            } else if j == 14 {
                assert(t[4].name.len() != t[14].name.len());
            } else if j == 15 {
                assert(t[4].name.len() != t[15].name.len());
            } else if j == 16 {
                assert(t[4].name.len() != t[16].name.len());
            } else if j == 17 {
                assert(t[4].name.len() != t[17].name.len());
            } else if j == 18 {
                assert(t[4].name.len() != t[18].name.len());
            } else if j == 19 {
                assert(t[4].name.len() != t[19].name.len());
            } else if j == 20 {
                assert(t[4].name.len() != t[20].name.len());
            } else if j == 21 {
                assert(t[4].name.len() != t[21].name.len());
            } else if j == 22 {
                assert(t[4].name.len() != t[22].name.len());
            }
        } else if i == 5 {
            if j == 6 {
                assert(t[5].name.len() != t[6].name.len());
            } else if j == 7 {
                assert(t[5].name.len() != t[7].name.len());
            } else if j == 8 {
                assert(t[5].name.len() != t[8].name.len());
            } else if j == 9 {
                assert(t[5].name.len() != t[9].name.len());
            } else if j == 10 {
                assert(t[5].name.len() != t[10].name.len());
            } else if j == 11 {
                assert(t[5].name.len() != t[11].name.len());
            } else if j == 12 {
                assert(t[5].name.len() != t[12].name.len());
            } else if j == 13 {
                assert(t[5].name.len() != t[13].name.len());
            } else if j == 14 {
                assert(t[5].name.len() != t[14].name.len());
            } else if j == 15 {
                assert(t[5].name.len() != t[15].name.len());
            } else if j == 16 {
                assert(t[5].name.len() != t[16].name.len());
            } else if j == 17 {
                assert(t[5].name.len() != t[17].name.len());
            } else if j == 18 {
                assert(t[5].name.len() != t[18].name.len());
            } else if j == 19 {
                assert(t[5].name.len() != t[19].name.len());
            } else if j == 20 {
                assert(t[5].name.len() != t[20].name.len());
            } else if j == 21 {
                assert(t[5].name.len() != t[21].name.len());
            } else if j == 22 {
                assert(t[5].name.len() != t[22].name.len());
            }
        } else if i == 6 {
            if j == 7 {
                assert(t[6].name[11] != t[7].name[11]);
            } else if j == 8 {
                assert(t[6].name.len() != t[8].name.len());
            } else if j == 9 {
                assert(t[6].name.len() != t[9].name.len());
            } else if j == 10 {
                assert(t[6].name.len() != t[10].name.len());
            } else if j == 11 {
                assert(t[6].name.len() != t[11].name.len());
            } else if j == 12 {
                assert(t[6].name.len() != t[12].name.len());
            } else if j == 13 {
                assert(t[6].name.len() != t[13].name.len());
            } else if j == 14 {
                assert(t[6].name.len() != t[14].name.len());
            } else if j == 15 {
                assert(t[6].name.len() != t[15].name.len());
            } else if j == 16 {
                assert(t[6].name.len() != t[16].name.len());
            } else if j == 17 {
                assert(t[6].name[0] != t[17].name[0]);
            } else if j == 18 {
                assert(t[6].name.len() != t[18].name.len());
            } else if j == 19 {
                assert(t[6].name.len() != t[19].name.len());
            } else if j == 20 {
                assert(t[6].name.len() != t[20].name.len());
            } else if j == 21 {
                assert(t[6].name.len() != t[21].name.len());
            } else if j == 22 {
                assert(t[6].name.len() != t[22].name.len());
            }
        } else if i == 7 {
            if j == 8 {
                assert(t[7].name.len() != t[8].name.len());
            } else if j == 9 {
                assert(t[7].name.len() != t[9].name.len());
            } else if j == 10 {
                assert(t[7].name.len() != t[10].name.len());
            } else if j == 11 {
                assert(t[7].name.len() != t[11].name.len());
            } else if j == 12 {
                assert(t[7].name.len() != t[12].name.len());
            } else if j == 13 {
                assert(t[7].name.len() != t[13].name.len());
            } else if j == 14 {
                assert(t[7].name.len() != t[14].name.len());
            } else if j == 15 {
                assert(t[7].name.len() != t[15].name.len());
            } else if j == 16 {
                assert(t[7].name.len() != t[16].name.len());
            } else if j == 17 {
                assert(t[7].name[0] != t[17].name[0]);
            } else if j == 18 {
                assert(t[7].name.len() != t[18].name.len());
            } else if j == 19 {
                assert(t[7].name.len() != t[19].name.len());
            } else if j == 20 {
                assert(t[7].name.len() != t[20].name.len());
            } else if j == 21 {
                assert(t[7].name.len() != t[21].name.len());
            } else if j == 22 {
                assert(t[7].name.len() != t[22].name.len());
            }
        } else if i == 8 {
            if j == 9 {
                assert(t[8].name.len() != t[9].name.len());
            } else if j == 10 {
                assert(t[8].name.len() != t[10].name.len());
            } else if j == 11 {
                assert(t[8].name.len() != t[11].name.len());
            } else if j == 12 {
                assert(t[8].name.len() != t[12].name.len());
            } else if j == 13 {
                assert(t[8].name.len() != t[13].name.len());
            } else if j == 14 {
                assert(t[8].name.len() != t[14].name.len());
            } else if j == 15 {
                assert(t[8].name.len() != t[15].name.len());
            } else if j == 16 {
                assert(t[8].name.len() != t[16].name.len());
            } else if j == 17 {
                assert(t[8].name.len() != t[17].name.len());
            } else if j == 18 {
                assert(t[8].name.len() != t[18].name.len());
            } else if j == 19 {
                assert(t[8].name.len() != t[19].name.len());
            } else if j == 20 {
                assert(t[8].name.len() != t[20].name.len());
            } else if j == 21 {
                assert(t[8].name.len() != t[21].name.len());
            } else if j == 22 {
                assert(t[8].name.len() != t[22].name.len());
            }
        } else if i == 9 {
            if j == 10 {
                assert(t[9].name.len() != t[10].name.len());
            } else if j == 11 {
                assert(t[9].name.len() != t[11].name.len());
            } else if j == 12 {
                assert(t[9].name.len() != t[12].name.len());
            } else if j == 13 {
                assert(t[9].name.len() != t[13].name.len());
            } else if j == 14 {
                assert(t[9].name.len() != t[14].name.len());
            } else if j == 15 {
                assert(t[9].name.len() != t[15].name.len());
            } else if j == 16 {
                assert(t[9].name.len() != t[16].name.len());
            } else if j == 17 {
                assert(t[9].name.len() != t[17].name.len());
            } else if j == 18 {
                assert(t[9].name.len() != t[18].name.len());
            } else if j == 19 {
                assert(t[9].name.len() != t[19].name.len());
            } else if j == 20 {
                assert(t[9].name.len() != t[20].name.len());
            } else if j == 21 {
                assert(t[9].name.len() != t[21].name.len());
            } else if j == 22 {
                assert(t[9].name.len() != t[22].name.len());
            }
        } else if i == 10 {
            if j == 11 {
                assert(t[10].name.len() != t[11].name.len());
            } else if j == 12 {
                assert(t[10].name.len() != t[12].name.len());
            } else if j == 13 {
                assert(t[10].name.len() != t[13].name.len());
            } else if j == 14 {
                assert(t[10].name.len() != t[14].name.len());
            } else if j == 15 {
                assert(t[10].name.len() != t[15].name.len());
            } else if j == 16 {
                assert(t[10].name.len() != t[16].name.len());
            } else if j == 17 {
                assert(t[10].name.len() != t[17].name.len());
            } else if j == 18 {
                assert(t[10].name.len() != t[18].name.len());
            } else if j == 19 {
                assert(t[10].name.len() != t[19].name.len());
            } else if j == 20 {
                assert(t[10].name.len() != t[20].name.len());
            } else if j == 21 {
                assert(t[10].name.len() != t[21].name.len());
            } else if j == 22 {
                assert(t[10].name.len() != t[22].name.len());
            }
        } else if i == 11 {
            if j == 12 {
                assert(t[11].name.len() != t[12].name.len());
            } else if j == 13 {
                assert(t[11].name.len() != t[13].name.len());
            } else if j == 14 {
                assert(t[11].name.len() != t[14].name.len());
            } else if j == 15 {
                assert(t[11].name.len() != t[15].name.len());
            } else if j == 16 {
                assert(t[11].name.len() != t[16].name.len());
            } else if j == 17 {
                assert(t[11].name.len() != t[17].name.len());
            } else if j == 18 {
                assert(t[11].name[0] != t[18].name[0]);
            } else if j == 19 {
                assert(t[11].name.len() != t[19].name.len());
            } else if j == 20 {
                assert(t[11].name.len() != t[20].name.len());
            } else if j == 21 {
                assert(t[11].name.len() != t[21].name.len());
            } else if j == 22 {
                assert(t[11].name.len() != t[22].name.len());
            }
        } else if i == 12 {
            if j == 13 {
                assert(t[12].name.len() != t[13].name.len());
            } else if j == 14 {
                assert(t[12].name.len() != t[14].name.len());
            } else if j == 15 {
                assert(t[12].name.len() != t[15].name.len());
            } else if j == 16 {
                assert(t[12].name.len() != t[16].name.len());
            } else if j == 17 {
                assert(t[12].name.len() != t[17].name.len());
            } else if j == 18 {
                assert(t[12].name.len() != t[18].name.len());
            } else if j == 19 {
                assert(t[12].name.len() != t[19].name.len());
            } else if j == 20 {
                assert(t[12].name.len() != t[20].name.len());
            } else if j == 21 {
                assert(t[12].name.len() != t[21].name.len());
            } else if j == 22 {
                assert(t[12].name.len() != t[22].name.len());
            }
        } else if i == 13 {
            if j == 14 {
                assert(t[13].name.len() != t[14].name.len());
            } else if j == 15 {
                assert(t[13].name.len() != t[15].name.len());
            } else if j == 16 {
                assert(t[13].name.len() != t[16].name.len());
            } else if j == 17 {
                assert(t[13].name.len() != t[17].name.len());
            } else if j == 18 {
                assert(t[13].name.len() != t[18].name.len());
            } else if j == 19 {
                assert(t[13].name.len() != t[19].name.len());
            } else if j == 20 {
                assert(t[13].name.len() != t[20].name.len());
            } else if j == 21 {
                assert(t[13].name.len() != t[21].name.len());
            } else if j == 22 {
                assert(t[13].name.len() != t[22].name.len());
            }
        } else if i == 14 {
            if j == 15 {
                assert(t[14].name.len() != t[15].name.len());
            } else if j == 16 {
                assert(t[14].name.len() != t[16].name.len());
            } else if j == 17 {
                assert(t[14].name.len() != t[17].name.len());
            } else if j == 18 {
                assert(t[14].name.len() != t[18].name.len());
            } else if j == 19 {
                assert(t[14].name[3] != t[19].name[3]);
            } else if j == 20 {
                assert(t[14].name.len() != t[20].name.len());
            } else if j == 21 {
                assert(t[14].name.len() != t[21].name.len());
            } else if j == 22 {
                assert(t[14].name.len() != t[22].name.len());
            }
        } else if i == 15 {
            if j == 16 {
                assert(t[15].name[3] != t[16].name[3]);
            } else if j == 17 {
                assert(t[15].name.len() != t[17].name.len());
            } else if j == 18 {
                assert(t[15].name.len() != t[18].name.len());
            } else if j == 19 {
                assert(t[15].name.len() != t[19].name.len());
            } else if j == 20 {
                assert(t[15].name.len() != t[20].name.len());
            } else if j == 21 {
                assert(t[15].name.len() != t[21].name.len());
            } else if j == 22 {
                assert(t[15].name.len() != t[22].name.len());
            }
        } else if i == 16 {
            if j == 17 {
                assert(t[16].name.len() != t[17].name.len());
            } else if j == 18 {
                assert(t[16].name.len() != t[18].name.len());
            } else if j == 19 {
                assert(t[16].name.len() != t[19].name.len());
            } else if j == 20 {
                assert(t[16].name.len() != t[20].name.len());
            } else if j == 21 {
                assert(t[16].name.len() != t[21].name.len());
            } else if j == 22 {
                assert(t[16].name.len() != t[22].name.len());
            }
        } else if i == 17 {
            if j == 18 {
                assert(t[17].name.len() != t[18].name.len());
            } else if j == 19 {
                assert(t[17].name.len() != t[19].name.len());
            } else if j == 20 {
                assert(t[17].name.len() != t[20].name.len());
            } else if j == 21 {
                assert(t[17].name.len() != t[21].name.len());
            } else if j == 22 {
                assert(t[17].name.len() != t[22].name.len());
            }
        } else if i == 18 {
            if j == 19 {
                assert(t[18].name.len() != t[19].name.len());
            } else if j == 20 {
                assert(t[18].name.len() != t[20].name.len());
            } else if j == 21 {
                assert(t[18].name.len() != t[21].name.len());
            } else if j == 22 {
                assert(t[18].name.len() != t[22].name.len());
            }
        } else if i == 19 {
            if j == 20 {
                assert(t[19].name.len() != t[20].name.len());
            } else if j == 21 {
                assert(t[19].name.len() != t[21].name.len());
            } else if j == 22 {
                assert(t[19].name.len() != t[22].name.len());
            }
        } else if i == 20 {
            if j == 21 {
                assert(t[20].name.len() != t[21].name.len());
            } else if j == 22 {
                assert(t[20].name.len() != t[22].name.len());
            }
        } else if i == 21 {
            if j == 22 {
                assert(t[21].name.len() != t[22].name.len());
            }
        }
    }
}

/// Whether two tables hold the same entries in the same order, values aside.
pub open spec fn same_layout(a: Seq<PropertyView>, b: Seq<PropertyView>) -> bool {
    &&& a.len() == b.len()
    &&& forall|i: int|
        0 <= i < a.len() ==> {
            &&& (#[trigger] a[i]).name == b[i].name
            &&& a[i].kind == b[i].kind
            &&& a[i].permission == b[i].permission
        }
}

/// A table that has the layout of the initial one and a well-formed value
/// in every entry.
pub open spec fn table_wf(t: Seq<PropertyView>) -> bool {
    &&& same_layout(t, initial_table())
    &&& forall|i: int| 0 <= i < t.len() ==> fits_kind((#[trigger] t[i]).kind, t[i].value)
}

/// The first position at or after `k` whose entry is named `n`.
pub open spec fn index_from(t: Seq<PropertyView>, n: Seq<char>, k: int) -> Option<int>
    decreases t.len() - k,
{
    if k < 0 || k >= t.len() {
        None
    } else if t[k].name == n {
        Some(k)
    } else {
        index_from(t, n, k + 1)
    }
}

pub proof fn lemma_index_from(t: Seq<PropertyView>, n: Seq<char>, k: int)
    requires
        0 <= k,
    ensures
        index_from(t, n, k) matches Some(j) ==> k <= j < t.len() && t[j].name == n,
        index_from(t, n, k) is None ==> forall|j: int| k <= j < t.len() ==> #[trigger] t[j].name != n,
    decreases t.len() - k,
{
    if k < t.len() && t[k].name != n {
        lemma_index_from(t, n, k + 1);
    }
}

/// The position of the first entry named `n`.
pub open spec fn index_of(t: Seq<PropertyView>, n: Seq<char>) -> Option<int> {
    index_from(t, n, 0)
}

fn entry(name: &str, kind: Kind, permission: Permission, value: &str) -> (p: Property)
    ensures
        p@ == entry_view(name, kind, permission, value),
{
    Property { name: String::from_str(name), value: String::from_str(value), kind, permission }
}

/// Builds the initial property table.
pub(crate) fn initial_properties() -> (r: Vec<Property>)
    ensures
        views(r@) == initial_table(),
{
    let mut props: Vec<Property> = Vec::new();
    props.push(entry("average_amps", Kind::Float, Permission::ReadOnly, "0"));
    props.push(entry("amps_hours", Kind::Float, Permission::ReadOnly, "0"));
    props.push(entry("watt_hours", Kind::Float, Permission::ReadOnly, "0"));
    props.push(entry("uptime", Kind::Integer, Permission::ReadOnly, "0"));
    props.push(entry("total_current", Kind::Float, Permission::ReadOnly, "0"));
    props.push(entry("current_12V_output", Kind::Float, Permission::ReadOnly, "0"));
    props.push(entry("current_dewA", Kind::Float, Permission::ReadOnly, "0"));
    props.push(entry("current_dewB", Kind::Float, Permission::ReadOnly, "0"));
    props.push(entry("input_voltage", Kind::Float, Permission::ReadOnly, "0"));
    props.push(entry("current", Kind::Float, Permission::ReadOnly, "0"));
    props.push(entry("temp", Kind::Float, Permission::ReadOnly, "0"));
    props.push(entry("humidity", Kind::Float, Permission::ReadOnly, "0"));
    props.push(entry("dew_point", Kind::Float, Permission::ReadOnly, "0"));
    props.push(entry("quadport_status", Kind::Boolean, Permission::ReadWrite, "0"));
    props.push(entry("adj_output_status", Kind::Boolean, Permission::ReadOnly, "0"));
    props.push(entry("dew1_power", Kind::Integer, Permission::ReadWrite, "0"));
    props.push(entry("dew2_power", Kind::Integer, Permission::ReadWrite, "0"));
    props.push(entry("autodew_bool", Kind::Boolean, Permission::ReadOnly, "0"));
    props.push(entry("pwr_warn", Kind::Boolean, Permission::ReadOnly, "0"));
    props.push(entry("adjustable_output", Kind::Integer, Permission::ReadWrite, "0"));
    props.push(entry("reboot", Kind::Boolean, Permission::WriteOnly, "0"));
    props.push(entry("power_status_on_boot", Kind::Text, Permission::WriteOnly, "1111"));
    props.push(entry("firmware_version", Kind::Text, Permission::ReadOnly, "UNKNOWN"));
    assert(views(props@) =~= initial_table());
    props
}

/// Compares two texts character by character.
pub fn text_eq(a: &str, b: &str) -> (r: bool)
    ensures
        r == (a@ == b@),
{
    let n = a.unicode_len();
    if n != b.unicode_len() {
        return false;
    }
    let mut i: usize = 0;
    while i < n
        invariant
            n == a@.len() == b@.len(),
            i <= n,
            a@.take(i as int) == b@.take(i as int),
        decreases n - i,
    {
        if a.get_char(i) != b.get_char(i) {
            assert(a@[i as int] != b@[i as int]);
            return false;
        }
        assert(a@.take(i + 1) =~= a@.take(i as int).push(a@[i as int]));
        assert(b@.take(i + 1) =~= b@.take(i as int).push(b@[i as int]));
        i = i + 1;
    }
    assert(a@ =~= a@.take(n as int));
    assert(b@ =~= b@.take(n as int));
    true
}

/// The initial table is well-formed.
pub proof fn lemma_initial_wf()
    ensures
        table_wf(initial_table()),
{
    reveal_strlit("0");
    let t = initial_table();
    assert forall|i: int| 0 <= i < t.len() implies fits_kind((#[trigger] t[i]).kind, t[i].value) by {
        if t[i].kind != Kind::Text {
            assert(t[i].value == "0"@);
            assert("0"@ =~= seq!['0']);
        }
    }
}

} // verus!
