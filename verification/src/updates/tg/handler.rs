//! What becomes of an update of the chat network on its way to the update
//! channel.

use crate::result::Error;
use crate::updates::SourceData;
use crate::updates::tg::content::TgUpdate;
use crate::updates::tg::parsers::{parse_update, parsed_update, refused_update_name};
use vstd::prelude::*;

verus! {

/// What is put on the update channel for an update of the chat network: the
/// parsed update, the refusal of an update that is refused, and nothing for
/// a message without text and files.
pub fn handle_update(tg_update: &TgUpdate) -> (r: Option<Result<SourceData, Error>>)
    ensures
        match r {
            Some(Ok(data)) => data matches SourceData::Telegram(update) && refused_update_name(
                *tg_update,
            ) is None && Some(update@) == parsed_update(*tg_update),
            Some(Err(e)) => e is UpdateNotSupported && refused_update_name(*tg_update) == Some(
                e.detail(),
            ),
            None => refused_update_name(*tg_update) is None && parsed_update(*tg_update) is None,
        },
{
    match parse_update(tg_update) {
        Ok(Some(update)) => Some(Ok(SourceData::Telegram(update))),
        Ok(None) => None,
        Err(e) => Some(Err(e)),
    }
}

} // verus!
