use vstd::prelude::*;

use crate::decimal::{decimal, decimal_text};

verus! {

/// The query by which the game client follows its own player's row.
pub fn player_subscription_query(steam_id: u64) -> (sql: String)
    ensures
        sql@ == "SELECT * FROM player WHERE steam_id = '"@ + decimal(steam_id as nat) + "'"@,
{
    let mut sql = String::from_str("SELECT * FROM player WHERE steam_id = '");
    let digits = decimal_text(steam_id);
    sql.append(digits.as_str());
    sql.append("'");
    sql
}

} // verus!
