use voyager_core::galois::ZeroKnowledgeProof;
use voyager_core::protos;

fn hex(bytes: &[u8]) -> serde_json::Value {
    let mut s = String::from("0x");
    for b in bytes {
        s.push_str(&format!("{b:02x}"));
    }
    serde_json::Value::String(s)
}

fn to_json(proof: ZeroKnowledgeProof) -> String {
    let raw = proof.into_raw();
    let mut object = serde_json::Map::new();
    object.insert("content".to_string(), hex(&raw.content));
    object.insert("compressed_content".to_string(), hex(&raw.compressed_content));
    object.insert("evm_proof".to_string(), hex(&raw.evm_proof));
    object.insert("public_inputs".to_string(), hex(&raw.public_inputs));
    serde_json::to_string_pretty(&serde_json::Value::Object(object)).unwrap()
}

#[test]
fn serde() {
    let json = to_json(ZeroKnowledgeProof {
        content: [].into(),
        compressed_content: [].into(),
        evm_proof: [].into(),
        public_inputs: [].into(),
    });

    println!("{json}");
}

#[test]
fn a_proof_goes_to_its_wire_form_and_back() {
    let raw = protos::ZeroKnowledgeProof {
        content: vec![1, 2, 3],
        compressed_content: vec![4],
        evm_proof: vec![],
        public_inputs: vec![0xab, 0xcd],
    };
    let proof = ZeroKnowledgeProof::from(raw.clone());
    assert_eq!(
        proof,
        ZeroKnowledgeProof {
            content: vec![1, 2, 3],
            compressed_content: vec![4],
            evm_proof: vec![],
            public_inputs: vec![0xab, 0xcd],
        }
    );
    assert_eq!(proof.clone().into_raw(), raw);

    let json: serde_json::Value = serde_json::from_str(&to_json(proof)).unwrap();
    assert_eq!(json["content"], "0x010203");
    assert_eq!(json["compressed_content"], "0x04");
    assert_eq!(json["evm_proof"], "0x");
    assert_eq!(json["public_inputs"], "0xabcd");
}
