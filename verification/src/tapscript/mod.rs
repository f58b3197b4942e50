pub mod and_v_checksig;
pub mod and_v_dual_hash;
pub mod and_v_multi_pk;
pub mod and_v_or;
pub mod and_v_pk_hash_lock;
pub mod combinators;
pub mod common;
pub mod hash;
pub mod kind;
pub mod layout;
pub mod matching;
pub mod multi_a;
pub mod older_after;
pub mod or_c;
pub mod or_i_basic;
pub mod or_i_product;
pub mod script;
pub mod thresh;
pub mod values;
