//! The Amf0Command message: a named command with a transaction id, a command
//! object and further arguments, all carried as AMF0 values.  The first
//! three values have fixed roles: a string name, a number transaction id and
//! the command object.

use vstd::prelude::*;

use crate::amf0::{self, Amf0Value, Amf0ValueView};
use crate::rtmp_message::{
    spec_deserialize_message, spec_serialize_message, MessageDeserializationError,
    MessageSerializationError, MessageView, RawRtmpMessage, RtmpMessage,
};

verus! {

/// Encodes an Amf0Command message body: the name, the transaction id and the
/// command object, then the extra arguments, as one AMF0 value sequence.
pub fn serialize(
    command_name: String,
    transaction_id: u64,
    command_object: Amf0Value,
    additional_arguments: Vec<Amf0Value>,
) -> (r: Result<RawRtmpMessage, MessageSerializationError>)
    ensures
        match spec_serialize_message(
            MessageView::Amf0Command {
                command_name: command_name@,
                transaction_id,
                command_object: command_object@,
                additional_arguments: amf0::values_view(additional_arguments@),
            },
        ) {
            Ok(raw) => r matches Ok(v) && v@ == raw,
            Err(e) => r == Err::<RawRtmpMessage, MessageSerializationError>(e),
        },
{
    let ghost expected = seq![
        Amf0ValueView::Utf8String(command_name@),
        Amf0ValueView::Number(transaction_id),
        command_object@,
    ] + amf0::values_view(additional_arguments@);
    let mut values: Vec<Amf0Value> = Vec::new();
    values.push(Amf0Value::Utf8String(command_name));
    values.push(Amf0Value::Number(transaction_id));
    values.push(command_object);
    let mut arguments = additional_arguments;
    let ghost arguments_snapshot = arguments@;
    let ghost head = values@;
    values.append(&mut arguments);
    proof {
        assert(values@ =~= head + arguments_snapshot);
        amf0::lemma_values_view_index(values@);
        amf0::lemma_values_view_index(arguments_snapshot);
        assert(amf0::values_view(values@) =~= expected);
    }
    match amf0::serialize(&values) {
        Ok(data) => Ok(RawRtmpMessage { data, type_id: 20 }),
        Err(e) => Err(MessageSerializationError::Amf0SerializationError(e)),
    }
}

/// Decodes an Amf0Command message body: at least three AMF0 values, the
/// first a string and the second a number, the rest extra arguments.
pub fn deserialize(data: Vec<u8>) -> (r: Result<RtmpMessage, MessageDeserializationError>)
    ensures
        match spec_deserialize_message(data@, 20) {
            Ok(m) => r matches Ok(v) && v@ == m,
            Err(e) => r == Err::<RtmpMessage, MessageDeserializationError>(e),
        },
{
    let mut values = match amf0::deserialize(&data) {
        Ok(values) => values,
        Err(e) => {
            return Err(MessageDeserializationError::Amf0DeserializationError(e));
        },
    };
    proof {
        amf0::lemma_values_view_index(values@);
    }
    if values.len() < 3 {
        return Err(MessageDeserializationError::InvalidMessageFormat);
    }
    let ghost decoded = amf0::values_view(values@);
    let first = values.remove(0);
    let second = values.remove(0);
    let command_object = values.remove(0);
    proof {
        amf0::lemma_values_view_index(values@);
        assert(amf0::values_view(values@) =~= decoded.skip(3));
    }
    let command_name = match first {
        Amf0Value::Utf8String(name) => name,
        _ => {
            return Err(MessageDeserializationError::InvalidMessageFormat);
        },
    };
    let transaction_id = match second {
        Amf0Value::Number(tx) => tx,
        _ => {
            return Err(MessageDeserializationError::InvalidMessageFormat);
        },
    };
    Ok(
        RtmpMessage::Amf0Command {
            command_name,
            transaction_id,
            command_object,
            additional_arguments: values,
        },
    )
}

} // verus!
