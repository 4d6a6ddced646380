use safeql::ast::{Expression, Operator, PredicateExpr};
use safeql::chat::{ChatChoice, ChatMessage, ChatResponse, LockMode, TriggerType, embedding_backend_options, BackendOptions};
use safeql::parser::{static_parse_softql, SoftQLError, SoftQLParser};
use safeql::prompt::{generate_comment_prompt, generate_cot_prompt, generate_text2softql_prompt, COT_PROMPT};

#[test]
fn tree_of_a_query() {
    let q = static_parse_softql("t.join(u, equals(t.id, u.id)).where(a(t.x) OR b(t.y) AND NOT c()).limit(5)").unwrap();
    assert_eq!(q.initial_table, "t");
    match &q.operations[0] {
        Operator::Join(j) => {
            assert_eq!(j.table, "u");
            match j.predicate.as_ref().unwrap() {
                PredicateExpr::FuncCall(f) => {
                    assert_eq!(f.name, "equals");
                    assert_eq!(f.args, vec![
                        Expression::TableField("t".to_string(), "id".to_string()),
                        Expression::TableField("u".to_string(), "id".to_string()),
                    ]);
                }
                other => panic!("{:?}", other),
            }
        }
        other => panic!("{:?}", other),
    }
    match &q.operations[1] {
        Operator::Filter(PredicateExpr::Or(l, r)) => {
            assert!(matches!(**l, PredicateExpr::FuncCall(_)));
            assert!(matches!(**r, PredicateExpr::And(_, _)));
        }
        other => panic!("{:?}", other),
    }
    assert_eq!(q.operations[2], Operator::Limit("5".to_string()));
}

#[test]
fn literals_and_errors() {
    let q = static_parse_softql("t.project('a b', \"c\", -1.5, NULL, False)").unwrap();
    assert_eq!(
        q.operations[0],
        Operator::Project(vec![
            Expression::StringLiteral("a b".to_string()),
            Expression::StringLiteral("c".to_string()),
            Expression::NumberLiteral("-1.5".to_string()),
            Expression::NullLiteral,
            Expression::BoolLiteral(false),
        ])
    );
    assert_eq!(static_parse_softql("t.where(x = 1)").unwrap_err(), SoftQLError::UnexpectedCharacter);
    assert_eq!(static_parse_softql("t.where('open").unwrap_err(), SoftQLError::UnexpectedCharacter);
    assert_eq!(static_parse_softql("t.select(a.b)").unwrap_err(), SoftQLError::UnexpectedToken);
    assert_eq!(static_parse_softql("t.").unwrap_err(), SoftQLError::UnexpectedToken);
    assert!(SoftQLParser::parse("t.group(t.a)").is_ok());
}

#[test]
fn chat_response_content() {
    let r = ChatResponse {
        choices: vec![ChatChoice { message: ChatMessage { role: "assistant".to_string(), content: "t.limit(1)".to_string() } }],
        usage: None,
    };
    assert_eq!(r.try_pop_softql().unwrap(), "t.limit(1)");
    let empty = ChatResponse { choices: vec![], usage: None };
    assert_eq!(empty.try_pop_softql().unwrap_err().hint, "no response choices");
}

#[test]
fn prompts() {
    let c = generate_comment_prompt("K", "Q");
    assert!(c.starts_with("-- External Knowledge: K\\n"));
    assert!(c.contains("-- Q"));
    assert_eq!(generate_cot_prompt(), COT_PROMPT);
    let full = generate_text2softql_prompt("SCHEMA", "K", "Q");
    assert!(full.contains("SCHEMA"));
    assert!(full.find("SCHEMA").unwrap() < full.find("External Knowledge: K").unwrap());
}

#[test]
fn settings() {
    match embedding_backend_options("fastembed", "m", 2, "u", "k") {
        BackendOptions::FastEmbed { model, gpu_device_id, .. } => assert_eq!((model.as_str(), gpu_device_id), ("m", 2)),
        _ => panic!("local backend expected"),
    }
    match embedding_backend_options("openai", "m", 2, "u", "k") {
        BackendOptions::OpenAI { base_url, api_key, model } => assert_eq!((base_url.as_str(), api_key.as_str(), model.as_str()), ("u", "k", "m")),
        _ => panic!("service backend expected"),
    }
    assert_eq!(LockMode::AccessExclusiveLock.code(), 8);
    assert_eq!(TriggerType::Truncate.code(), 32);
}
