//! Which setting wins.

use crate::config::ConfigView;
use crate::text::{parsed_i32, split_words};
use vstd::prelude::*;

verus! {

/// The environment wins over the file: any hash, and an id that is a number.
/// What it does not set, or sets to no number, stays as the file has it.
pub proof fn environment_wins(
    c: ConfigView,
    api_id: Option<Seq<char>>,
    api_hash: Option<Seq<char>>,
)
    ensures
        ({
            let d = c.overridden(api_id, api_hash);
            &&& d.player == c.player
            &&& api_hash is Some ==> d.api_hash == api_hash
            &&& api_hash is None ==> d.api_hash == c.api_hash
            &&& api_id is Some && parsed_i32(api_id->0) is Some ==> d.api_id == parsed_i32(
                api_id->0,
            )
            &&& api_id is Some && parsed_i32(api_id->0) is None ==> d.api_id == c.api_id
            &&& api_id is None ==> d.api_id == c.api_id
        }),
{
}

/// Without a file nothing is set.
pub proof fn nothing_is_set_without_a_file()
    ensures
        ConfigView::nothing().api_id is None,
        ConfigView::nothing().api_hash is None,
        ConfigView::nothing().player is None,
{
}

/// There is always a player: the words of the variable if it has any, else what
/// the file has if that is not empty, else `mpv`.
pub proof fn there_is_always_a_player(c: ConfigView, env: Option<Seq<char>>)
    ensures
        ({
            let argv = c.player_argv(env);
            let by_env = env is Some && split_words(env->0).len() > 0;
            let by_file = c.player is Some && (c.player->0).len() > 0;
            &&& argv.len() > 0
            &&& by_env ==> argv == split_words(env->0)
            &&& !by_env && by_file ==> argv == c.player->0
            &&& !by_env && !by_file ==> argv == seq!["mpv"@]
        }),
{
}

} // verus!
