use vstd::prelude::*;

verus! {

#[derive(Debug, Clone)]
pub struct Company {
    pub id: i64,
    pub name: String,
    /// `normalize_name(name)`; companies are unique by this key.
    pub normalized_name: String,
    pub company_folder_path: Option<String>,
    pub notes: Option<String>,
    pub created_at: String,
    pub updated_at: String,
}

} // verus!
