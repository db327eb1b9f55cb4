//! The plain-value side of the foreign interface: string buffers of a fixed
//! size, flat selections, and the calculation on a list of systems that may
//! be empty.

use vstd::prelude::*;
use vstd::string::{StringExecFns, StringSliceAdditionalSpecFns};
use crate::calculator::{CalculationOptions, Calculator, SelectedIndexes};
use crate::descriptor::Descriptor;
use crate::errors::Error;
use crate::indexes::IndexValue;
use crate::system::{system_views, SimpleSystem};
use crate::text::{decimal, decimal_text};

verus! {

/// The message for a buffer with space for `space` characters, where
/// `needed` characters have to be written.
pub open spec fn buffer_message(space: nat, needed: nat) -> Seq<char> {
    "string buffer is not big enough: got space for "@ + decimal(space)
        + " characters, but we need to write "@ + decimal(needed)
}

/// What a buffer holds after a text of these bytes was copied into it: the
/// bytes, a terminating zero, and what the buffer held behind them before.
pub open spec fn copied(bytes: Seq<u8>, buffer: Seq<u8>) -> Seq<u8> {
    bytes + seq![0u8] + buffer.subrange(bytes.len() as int + 1, buffer.len() as int)
}

/// Copies the bytes of `string` to the start of `buffer`, with a zero byte
/// behind them.
///
/// Fails, and leaves the buffer as it was, when the buffer has no room for
/// the bytes and the zero byte: the message gives the number of characters
/// that the buffer has space for, one less than its length, and the number
/// that the text needs.
pub fn copy_str_to_c(string: &str, buffer: &mut [u8]) -> (result: Result<(), Error>)
    ensures
        final(buffer)@.len() == old(buffer)@.len(),
        string.spec_bytes().len() < old(buffer)@.len() ==> result is Ok && final(buffer)@ == copied(
            string.spec_bytes(),
            old(buffer)@,
        ),
        string.spec_bytes().len() >= old(buffer)@.len() ==> (result matches Err(
            Error::InvalidParameter(message),
        ) && message@ == buffer_message(
            if old(buffer)@.len() == 0 {
                0
            } else {
                (old(buffer)@.len() - 1) as nat
            },
            string.spec_bytes().len(),
        )) && final(buffer)@ == old(buffer)@,
{
    let bytes = string.as_bytes();
    let length = bytes.len();
    let space = if buffer.len() == 0 {
        0
    } else {
        buffer.len() - 1
    };
    if buffer.len() == 0 || space < length {
        let mut message = "string buffer is not big enough: got space for ".to_owned();
        message.append(decimal_text(space).as_str());
        message.append(" characters, but we need to write ");
        message.append(decimal_text(length).as_str());
        return Err(Error::InvalidParameter(message));
    }
    let mut i: usize = 0;
    while i < length
        invariant
            i <= length,
            length == bytes@.len(),
            length < buffer@.len(),
            buffer@.len() == old(buffer)@.len(),
            forall|k: int| 0 <= k < i ==> buffer@[k] == bytes@[k],
            forall|k: int| i <= k < buffer@.len() ==> buffer@[k] == old(buffer)@[k],
        decreases length - i,
    {
        buffer[i] = bytes[i];
        i += 1;
    }
    buffer[length] = 0;
    assert(buffer@ =~= copied(bytes@, old(buffer)@));
    Ok(())
}

/// The options of a calculation as the foreign interface gives them: a flag,
/// and two flat lists of values that may be missing.
#[derive(Debug)]
pub struct FlatOptions<'a> {
    /// Whether to copy the systems before the calculation runs on them.
    pub use_native_system: bool,
    /// The rows on which to run the calculation, one tuple after the other;
    /// all the rows where the list is missing.
    pub selected_samples: Option<&'a [IndexValue]>,
    /// The columns on which to run the calculation, one tuple after the
    /// other; all the columns where the list is missing.
    pub selected_features: Option<&'a [IndexValue]>,
}

/// The selection that a flat list stands for: everything where the list is
/// missing.
pub open spec fn flat_selection<'a>(list: Option<&'a [IndexValue]>) -> SelectedIndexes<'a> {
    match list {
        Some(list) => SelectedIndexes::FromC(list),
        None => SelectedIndexes::All,
    }
}

impl<'a> FlatOptions<'a> {
    /// The options that these flat options stand for.
    pub open spec fn options(self) -> CalculationOptions<'a> {
        CalculationOptions {
            use_native_system: self.use_native_system,
            selected_samples: flat_selection(self.selected_samples),
            selected_features: flat_selection(self.selected_features),
        }
    }

    /// The options that these flat options stand for: a missing list
    /// selects everything.
    pub fn into_options(self) -> (options: CalculationOptions<'a>)
        ensures
            options == self.options(),
    {
        let selected_samples = match self.selected_samples {
            Some(list) => SelectedIndexes::FromC(list),
            None => SelectedIndexes::All,
        };
        let selected_features = match self.selected_features {
            Some(list) => SelectedIndexes::FromC(list),
            None => SelectedIndexes::All,
        };
        CalculationOptions {
            use_native_system: self.use_native_system,
            selected_samples,
            selected_features,
        }
    }
}

/// Runs the calculation on the systems with the flat options, and stores
/// the result in `descriptor`. Without any system, nothing is done: the call
/// succeeds and the descriptor stays as it was.
pub fn calculator_compute(
    calculator: &mut Calculator,
    descriptor: &mut Descriptor,
    systems: &[SimpleSystem],
    options: FlatOptions,
) -> (result: Result<(), Error>)
    requires
        systems@.len() > 0 ==> old(calculator).accepts(system_views(systems@), options.options()),
    ensures
        final(calculator).implementation_spec() == old(calculator).implementation_spec(),
        final(calculator).parameters_spec() == old(calculator).parameters_spec(),
        systems@.len() == 0 ==> result is Ok && final(descriptor)@ == old(descriptor)@,
        systems@.len() > 0 ==> old(calculator).computed(
            system_views(systems@),
            options.options(),
            old(descriptor)@,
            final(descriptor)@,
            result,
        ),
{
    if systems.len() == 0 {
        return Ok(());
    }
    calculator.compute(systems, descriptor, options.into_options())
}

} // verus!
