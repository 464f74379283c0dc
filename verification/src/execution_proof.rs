//! Execution proofs: chained fingerprints of one agent run.

use crate::clock::unix_seconds;
use crate::digest::{decimal_digits, fingerprint, fingerprint_of, push_decimal};
use crate::json::{
    json_object_text, json_text_member, json_u64_member, read_text_member, read_u64_member,
    write_object,
};
use crate::text::same_text;
use vstd::prelude::*;
use vstd::string::*;
use vstd::utf8::encode_utf8;

verus! {

/// The five fields of a proof as mathematical values.
pub struct ProofData {
    pub agent_id: Seq<char>,
    pub timestamp: u64,
    pub input_hash: Seq<char>,
    pub output_hash: Seq<char>,
    pub proof_hash: Seq<char>,
}

/// The bytes that the proof hash is taken over: the agent id, the decimal
/// timestamp, the input hash and the output hash, in that order.
pub open spec fn chain_bytes(
    agent_id: Seq<char>,
    timestamp: u64,
    input_hash: Seq<char>,
    output_hash: Seq<char>,
) -> Seq<u8> {
    encode_utf8(agent_id) + decimal_digits(timestamp as nat) + encode_utf8(input_hash)
        + encode_utf8(output_hash)
}

/// The proof that binds `agent_id`, `input` and `output` at `timestamp`.
pub open spec fn sealed(agent_id: Seq<char>, timestamp: u64, input: Seq<u8>, output: Seq<u8>)
    -> ProofData {
    ProofData {
        agent_id,
        timestamp,
        input_hash: fingerprint(input),
        output_hash: fingerprint(output),
        proof_hash: fingerprint(
            chain_bytes(agent_id, timestamp, fingerprint(input), fingerprint(output)),
        ),
    }
}

/// Whether `p` stands for `agent_id`, `input` and `output`: every hash
/// recomputed from them and from the stored timestamp equals the stored one.
pub open spec fn accepts(p: ProofData, agent_id: Seq<char>, input: Seq<u8>, output: Seq<u8>)
    -> bool {
    &&& p.agent_id == agent_id
    &&& p.input_hash == fingerprint(input)
    &&& p.output_hash == fingerprint(output)
    &&& p.proof_hash == fingerprint(
        chain_bytes(agent_id, p.timestamp, p.input_hash, p.output_hash),
    )
}


/// The JSON text of a proof: an object of its five fields.
pub open spec fn wire_text(p: ProofData) -> Seq<char> {
    json_object_text(
        seq![
            ("agent_id"@, p.agent_id),
            ("input_hash"@, p.input_hash),
            ("output_hash"@, p.output_hash),
            ("proof_hash"@, p.proof_hash),
        ],
        seq![("timestamp"@, p.timestamp)],
    )
}

/// A proof put together from five members that were looked for: there is
/// one only if every member was found.
pub open spec fn assembled(
    agent_id: Option<Seq<char>>,
    timestamp: Option<u64>,
    input_hash: Option<Seq<char>>,
    output_hash: Option<Seq<char>>,
    proof_hash: Option<Seq<char>>,
) -> Option<ProofData> {
    if agent_id.is_some() && timestamp.is_some() && input_hash.is_some() && output_hash.is_some()
        && proof_hash.is_some() {
        Some(
            ProofData {
                agent_id: agent_id.unwrap(),
                timestamp: timestamp.unwrap(),
                input_hash: input_hash.unwrap(),
                output_hash: output_hash.unwrap(),
                proof_hash: proof_hash.unwrap(),
            },
        )
    } else {
        None
    }
}

/// The proof that the JSON text `document` holds, if it holds one.
pub open spec fn wire_proof(document: Seq<char>) -> Option<ProofData> {
    assembled(
        json_text_member(document, "agent_id"@),
        json_u64_member(document, "timestamp"@),
        json_text_member(document, "input_hash"@),
        json_text_member(document, "output_hash"@),
        json_text_member(document, "proof_hash"@),
    )
}

/// A tamper-evident record of one execution of an agent.
#[derive(Debug, Clone)]
pub struct ExecutionProof {
    agent_id: String,
    timestamp: u64,
    input_hash: String,
    output_hash: String,
    proof_hash: String,
}

impl View for ExecutionProof {
    type V = ProofData;

    closed spec fn view(&self) -> ProofData {
        ProofData {
            agent_id: self.agent_id@,
            timestamp: self.timestamp,
            input_hash: self.input_hash@,
            output_hash: self.output_hash@,
            proof_hash: self.proof_hash@,
        }
    }
}

/// The fields of a proof that may be missing.
pub open spec fn data_of(proof: Option<ExecutionProof>) -> Option<ProofData> {
    if proof.is_some() {
        Some(proof.unwrap()@)
    } else {
        None
    }
}

/// Computes the hash that chains the four other fields of a proof.
pub fn chained_hash(agent_id: &str, timestamp: u64, input_hash: &str, output_hash: &str) -> (hash:
    String)
    ensures
        hash@ == fingerprint(chain_bytes(agent_id@, timestamp, input_hash@, output_hash@)),
{
    let mut bytes: Vec<u8> = Vec::new();
    bytes.extend_from_slice(agent_id.as_bytes());
    push_decimal(timestamp, &mut bytes);
    bytes.extend_from_slice(input_hash.as_bytes());
    bytes.extend_from_slice(output_hash.as_bytes());
    assert(bytes@ =~= chain_bytes(agent_id@, timestamp, input_hash@, output_hash@));
    fingerprint_of(bytes.as_slice())
}

impl ExecutionProof {
    /// Seals a proof for `agent_id`, `input` and `output` at the current
    /// time. Whatever the clock says, the proof is the one sealed at its
    /// own timestamp.
    pub fn new(agent_id: &str, input: &[u8], output: &[u8]) -> (proof: ExecutionProof)
        ensures
            proof@ == sealed(agent_id@, proof@.timestamp, input@, output@),
    {
        let timestamp = unix_seconds();
        ExecutionProof::at_time(agent_id, timestamp, input, output)
    }

    /// Seals a proof for `agent_id`, `input` and `output` at `timestamp`.
    pub fn at_time(agent_id: &str, timestamp: u64, input: &[u8], output: &[u8]) -> (proof:
        ExecutionProof)
        ensures
            proof@ == sealed(agent_id@, timestamp, input@, output@),
    {
        let input_hash = fingerprint_of(input);
        let output_hash = fingerprint_of(output);
        let proof_hash = chained_hash(agent_id, timestamp, input_hash.as_str(), output_hash.as_str());
        ExecutionProof {
            agent_id: agent_id.to_owned(),
            timestamp,
            input_hash,
            output_hash,
            proof_hash,
        }
    }

    /// Recomputes the three hashes from `agent_id`, `input`, `output` and
    /// the stored timestamp, and tells whether all of them are the stored
    /// ones.
    pub fn verify(&self, agent_id: &str, input: &[u8], output: &[u8]) -> (valid: bool)
        ensures
            valid == accepts(self@, agent_id@, input@, output@),
    {
        if !same_text(self.agent_id.as_str(), agent_id) {
            return false;
        }
        let input_hash = fingerprint_of(input);
        if !same_text(self.input_hash.as_str(), input_hash.as_str()) {
            return false;
        }
        let output_hash = fingerprint_of(output);
        if !same_text(self.output_hash.as_str(), output_hash.as_str()) {
            return false;
        }
        let proof_hash = chained_hash(
            agent_id,
            self.timestamp,
            self.input_hash.as_str(),
            self.output_hash.as_str(),
        );
        same_text(self.proof_hash.as_str(), proof_hash.as_str())
    }

    /// Writes the proof as a JSON object of its five fields.
    pub fn to_json(&self) -> (document: String)
        ensures
            document@ == wire_text(self@),
    {
        let mut texts: Vec<(String, String)> = Vec::new();
        texts.push(("agent_id".to_owned(), self.agent_id.clone()));
        texts.push(("input_hash".to_owned(), self.input_hash.clone()));
        texts.push(("output_hash".to_owned(), self.output_hash.clone()));
        texts.push(("proof_hash".to_owned(), self.proof_hash.clone()));
        let mut numbers: Vec<(String, u64)> = Vec::new();
        numbers.push(("timestamp".to_owned(), self.timestamp));
        proof {
            assert(texts.deep_view() =~= seq![
                ("agent_id"@, self@.agent_id),
                ("input_hash"@, self@.input_hash),
                ("output_hash"@, self@.output_hash),
                ("proof_hash"@, self@.proof_hash),
            ]);
            assert(numbers.deep_view() =~= seq![("timestamp"@, self@.timestamp)]);
        }
        write_object(&texts, &numbers)
    }

    /// Reads a proof from a JSON object. Every one of the five fields has
    /// to be there with its type: otherwise there is no proof at all.
    pub fn from_json(json: &str) -> (proof: Option<ExecutionProof>)
        ensures
            data_of(proof) == wire_proof(json@),
    {
        let agent_id = read_text_member(json, "agent_id");
        let timestamp = read_u64_member(json, "timestamp");
        let input_hash = read_text_member(json, "input_hash");
        let output_hash = read_text_member(json, "output_hash");
        let proof_hash = read_text_member(json, "proof_hash");
        ExecutionProof::from_fields(agent_id, timestamp, input_hash, output_hash, proof_hash)
    }

    /// Puts a proof together from five fields that were looked for. There
    /// is a proof only if every field was found.
    pub fn from_fields(
        agent_id: Option<String>,
        timestamp: Option<u64>,
        input_hash: Option<String>,
        output_hash: Option<String>,
        proof_hash: Option<String>,
    ) -> (proof: Option<ExecutionProof>)
        ensures
            data_of(proof) == assembled(
                agent_id.deep_view(),
                timestamp,
                input_hash.deep_view(),
                output_hash.deep_view(),
                proof_hash.deep_view(),
            ),
    {
        match (agent_id, timestamp, input_hash, output_hash, proof_hash) {
            (Some(agent_id), Some(timestamp), Some(input_hash), Some(output_hash), Some(proof_hash)) => {
                Some(ExecutionProof { agent_id, timestamp, input_hash, output_hash, proof_hash })
            },
            _ => None,
        }
    }

    /// The agent that ran.
    pub fn agent_id(&self) -> (id: &str)
        ensures
            id@ == self@.agent_id,
    {
        self.agent_id.as_str()
    }

    /// When the proof was sealed, in seconds since the Unix epoch.
    pub fn timestamp(&self) -> (seconds: u64)
        ensures
            seconds == self@.timestamp,
    {
        self.timestamp
    }

    /// The fingerprint of the input.
    pub fn input_hash(&self) -> (hash: &str)
        ensures
            hash@ == self@.input_hash,
    {
        self.input_hash.as_str()
    }

    /// The fingerprint of the output.
    pub fn output_hash(&self) -> (hash: &str)
        ensures
            hash@ == self@.output_hash,
    {
        self.output_hash.as_str()
    }

    /// The hash that chains the other four fields.
    pub fn proof_hash(&self) -> (hash: &str)
        ensures
            hash@ == self@.proof_hash,
    {
        self.proof_hash.as_str()
    }
}

/// A proof sealed for a triple is accepted for that triple, at whatever
/// time it was sealed.
pub proof fn lemma_sealed_is_accepted(
    agent_id: Seq<char>,
    timestamp: u64,
    input: Seq<u8>,
    output: Seq<u8>,
)
    ensures
        accepts(sealed(agent_id, timestamp, input, output), agent_id, input, output),
{
}

/// A JSON text that lacks one of the five fields, or holds one of another
/// type, holds no proof, whatever its other fields are.
pub proof fn lemma_missing_field_is_no_proof(document: Seq<char>)
    requires
        json_text_member(document, "agent_id"@).is_none() || json_u64_member(
            document,
            "timestamp"@,
        ).is_none() || json_text_member(document, "input_hash"@).is_none() || json_text_member(
            document,
            "output_hash"@,
        ).is_none() || json_text_member(document, "proof_hash"@).is_none(),
    ensures
        wire_proof(document).is_none(),
{
}

/// A proof accepted for one input is rejected for every input with another
/// fingerprint, and likewise for the output. Two byte strings that differ
/// have different fingerprints unless they collide under SHA-256.
pub proof fn lemma_tampering_is_rejected(
    p: ProofData,
    agent_id: Seq<char>,
    input: Seq<u8>,
    output: Seq<u8>,
    other: Seq<u8>,
)
    requires
        accepts(p, agent_id, input, output),
    ensures
        fingerprint(other) != fingerprint(input) ==> !accepts(p, agent_id, other, output),
        fingerprint(other) != fingerprint(output) ==> !accepts(p, agent_id, input, other),
{
}

} // verus!
