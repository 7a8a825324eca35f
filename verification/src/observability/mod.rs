pub mod llm_debug;
