use vstd::prelude::*;
use crate::environment::memory::Address;
use crate::operations::Operation;
use crate::environment::value::{Value, ValueVariant};
use crate::environment::memory::{Memory, MemorySegment};
use crate::environment::stack::Stack;
use crate::evaluate::{Error, ForthResult};
use crate::io::tokens::{Token, parse_number, upper_text};
use vstd::string::*;
use crate::io::format::{decimal_string, hex, hex_string, push_decimal};

verus! {

/// What executing a word does: run a built-in operation, run a compiled
/// instruction, call a definition in memory, or push a number.
#[derive(Clone, Copy, PartialEq, Eq, Structural, Debug, Hash)]
pub enum ExecutionToken {
    LeafOperation(Operation),
    CompiledInstruction(usize),
    Definition(Address),
    Number(i64),
}

impl ExecutionToken {
    pub open spec fn spec_to_offset(self) -> u64 {
        match self {
            ExecutionToken::LeafOperation(_) => 0,
            ExecutionToken::CompiledInstruction(i) => i as u64,
            ExecutionToken::Definition(address) => address.raw() as u64,
            ExecutionToken::Number(i) => i as u64,
        }
    }

    /// A number standing for the token: the index of a compiled instruction,
    /// the address of a definition, the number itself, or 0 for a built-in.
    pub fn to_offset(self) -> (r: u64)
        ensures r == self.spec_to_offset(),
    {
        match self {
            ExecutionToken::LeafOperation(_) => 0,
            ExecutionToken::CompiledInstruction(i) => i as u64,
            ExecutionToken::Definition(address) => address.as_raw(),
            ExecutionToken::Number(i) => i as u64,
        }
    }

    pub fn value(self) -> (r: Value)
        ensures r == Value::ExecutionToken(self),
    {
        Value::ExecutionToken(self)
    }
}


/// The text describing an execution token.
pub open spec fn token_description(xt: ExecutionToken) -> Seq<char> {
    match xt {
        ExecutionToken::LeafOperation(_) => "operation @ "@ + decimal_string(0),
        ExecutionToken::CompiledInstruction(i) => "compiled instruction @ offset "@ + decimal_string(i as int),
        ExecutionToken::Definition(a) => "definition @ "@ + hex_string(a.raw() as nat),
        ExecutionToken::Number(n) => "push "@ + decimal_string(n as int),
    }
}

impl ExecutionToken {
    /// Describes the token: what it runs, or the number it pushes.
    pub fn to_string(&self) -> (r: String)
        ensures r@ == token_description(*self),
    {
        let (mut s, n): (String, i128) = match *self {
            ExecutionToken::LeafOperation(_) => (String::from_str("operation @ "), 0),
            ExecutionToken::CompiledInstruction(i) => (String::from_str("compiled instruction @ offset "), i as i128),
            ExecutionToken::Definition(a) => {
                let mut s = String::from_str("definition @ ");
                let h = hex(a.as_raw());
                s.append(h.as_str());
                return s;
            },
            ExecutionToken::Number(n) => (String::from_str("push "), n as i128),
        };
        push_decimal(&mut s, n);
        s
    }
}

/// The execution token a cell read as an instruction stands for: a number is pushed.
pub open spec fn instruction_of(v: Value) -> ExecutionToken {
    match v {
        Value::ExecutionToken(xt) => xt,
        Value::Number(n) => ExecutionToken::Number(n),
    }
}

impl ValueVariant for ExecutionToken {
    open spec fn spec_size() -> nat {
        1
    }

    open spec fn spec_stack_cells(self) -> Seq<Value> {
        seq![Value::ExecutionToken(self)]
    }

    open spec fn spec_from_stack(cells: Seq<Value>) -> Result<Self, Error> {
        match cells[0] {
            Value::ExecutionToken(xt) => Ok(xt),
            Value::Number(_) => Err(Error::InvalidExecutionToken),
        }
    }

    open spec fn spec_memory_cells(self) -> Seq<Value> {
        seq![Value::ExecutionToken(self)]
    }

    open spec fn spec_from_memory(first: Result<Value, Error>, second: Result<Value, Error>, address: Address) -> Result<Self, Error> {
        match first {
            Ok(v) => Ok(instruction_of(v)),
            Err(e) => Err(e),
        }
    }

    open spec fn spec_write_first(self, old_first: Value, address: Address) -> Value {
        Value::ExecutionToken(self)
    }

    open spec fn spec_write_second(self) -> Value {
        Value::ExecutionToken(self)
    }

    fn size() -> (r: u64) {
        1
    }

    fn push_to_stack(self, stack: &mut Stack) {
        self.value().push_to_stack(stack)
    }

    fn pop_from_stack(stack: &mut Stack) -> (r: Result<Self, Error>) {
        match Value::pop_from_stack(stack) {
            Ok(Value::ExecutionToken(xt)) => Ok(xt),
            Ok(Value::Number(_)) => Err(Error::InvalidExecutionToken),
            Err(e) => Err(e),
        }
    }

    fn write_to_memory<M: MemorySegment>(self, memory: &mut M, address: Address) -> (r: ForthResult) {
        memory.write_value(address, self.value())
    }

    fn read_from_memory<M: MemorySegment>(memory: &M, address: Address) -> (r: Result<Self, Error>) {
        match memory.read_value(address) {
            Ok(Value::ExecutionToken(xt)) => Ok(xt),
            Ok(Value::Number(n)) => Ok(ExecutionToken::Number(n)),
            Err(e) => Err(e),
        }
    }

    fn push_to_memory(self, memory: &mut Memory) {
        self.value().push_to_memory(memory)
    }
}

/// A dictionary entry: what a word does, and whether it runs even while compiling.
#[derive(Clone, Copy, PartialEq, Eq, Structural, Debug)]
pub struct Definition {
    pub immediate: bool,
    pub execution_token: ExecutionToken,
}

impl Definition {
    pub fn new(execution_token: ExecutionToken, immediate: bool) -> (r: Self)
        ensures r.execution_token == execution_token, r.immediate == immediate,
    {
        Definition { execution_token, immediate }
    }
}

/// Where a name was found: among the definitions, or among the temporary ones (locals).
#[derive(Clone, Copy, PartialEq, Eq, Structural, Debug)]
pub enum NameTag {
    Definition(usize),
    TempDefinition(usize),
}

/// The last position of `names` below `n` that holds `name`, or -1.
pub open spec fn latest_index(names: Seq<Seq<char>>, name: Seq<char>, n: nat) -> int
    decreases n,
{
    if n == 0 {
        -1
    } else if names[n - 1] == name {
        n - 1
    } else {
        latest_index(names, name, (n - 1) as nat)
    }
}

pub proof fn lemma_latest_index_bounds(names: Seq<Seq<char>>, name: Seq<char>, n: nat)
    ensures
        -1 <= latest_index(names, name, n) < n,
        latest_index(names, name, n) >= 0 ==> names[latest_index(names, name, n)] == name,
        latest_index(names, name, n) == -1 ==> forall|i: int| 0 <= i < n ==> names[i] != name,
    decreases n,
{
    if n > 0 {
        lemma_latest_index_bounds(names, name, (n - 1) as nat);
    }
}

/// Whether `r` is what a lookup of `name` answers when it finds `found`: the definition,
/// or `UnknownWord` with the name.
pub open spec fn lookup_result(found: Option<Definition>, r: Result<Definition, Error>, name: Seq<char>) -> bool {
    match found {
        Some(d) => r == Ok::<Definition, Error>(d),
        None => r matches Err(Error::UnknownWord(w)) && w@ == name,
    }
}

/// What a word's text stands for: a number, or the word's visible definition.
pub open spec fn text_definition(table: &DefinitionTable, text: Seq<char>) -> Option<Definition> {
    match parse_number(text) {
        Some(i) => Some(Definition { execution_token: ExecutionToken::Number(i), immediate: false }),
        None => table.spec_lookup(upper_text(text)),
    }
}

/// The names of a list of strings.
pub open spec fn names_of(v: Seq<String>) -> Seq<Seq<char>> {
    v.map_values(|s: String| s@)
}

proof fn lemma_names_len(v: Seq<String>)
    ensures names_of(v).len() == v.len(),
{
}

/// Whether definition `i` is visible: no later definition has its name.
pub open spec fn is_visible(names: Seq<Seq<char>>, i: int) -> bool {
    latest_index(names, names[i], names.len()) == i
}

/// The last visible definition among the first `n` that runs `xt`, or -1.
pub open spec fn visible_index_of(names: Seq<Seq<char>>, definitions: Seq<Definition>, xt: ExecutionToken, n: nat) -> int
    decreases n,
{
    if n == 0 {
        -1
    } else if definitions[n - 1].execution_token == xt && is_visible(names, n - 1) {
        n - 1
    } else {
        visible_index_of(names, definitions, xt, (n - 1) as nat)
    }
}

/// The dictionary: named definitions (a later definition of a name hides earlier ones),
/// and temporary definitions that are looked up after them.
pub struct DefinitionTable {
    names: Vec<String>,
    definitions: Vec<Definition>,
    most_recent: usize,
    temp_names: Vec<String>,
    temp_definitions: Vec<Definition>,
}

impl DefinitionTable {
    pub closed spec fn spec_names(&self) -> Seq<Seq<char>> {
        names_of(self.names@)
    }

    pub closed spec fn spec_definitions(&self) -> Seq<Definition> {
        self.definitions@
    }

    pub closed spec fn spec_temp_names(&self) -> Seq<Seq<char>> {
        names_of(self.temp_names@)
    }

    pub closed spec fn spec_temp_definitions(&self) -> Seq<Definition> {
        self.temp_definitions@
    }

    pub closed spec fn spec_most_recent(&self) -> nat {
        self.most_recent as nat
    }

    pub closed spec fn wf(&self) -> bool {
        &&& self.names@.len() == self.definitions@.len()
        &&& self.temp_names@.len() == self.temp_definitions@.len()
        &&& (self.definitions@.len() > 0 ==> self.most_recent < self.definitions@.len())
    }

    /// The name under which `xt` is visible, if any (the latest such definition's name).
    pub open spec fn spec_name_of(&self, xt: ExecutionToken) -> Option<Seq<char>> {
        let i = visible_index_of(self.spec_names(), self.spec_definitions(), xt, self.spec_definitions().len());
        if i >= 0 {
            Some(self.spec_names()[i])
        } else {
            None
        }
    }

    /// What looking up `name` finds: its latest definition, else its latest temporary
    /// definition.
    pub open spec fn spec_lookup(&self, name: Seq<char>) -> Option<Definition> {
        let i = latest_index(self.spec_names(), name, self.spec_names().len());
        let j = latest_index(self.spec_temp_names(), name, self.spec_temp_names().len());
        if i >= 0 {
            Some(self.spec_definitions()[i])
        } else if j >= 0 {
            Some(self.spec_temp_definitions()[j])
        } else {
            None
        }
    }

    /// An empty dictionary.
    pub fn new() -> (r: Self)
        ensures
            r.wf(),
            r.spec_names() == Seq::<Seq<char>>::empty(),
            r.spec_definitions() == Seq::<Definition>::empty(),
            r.spec_temp_names() == Seq::<Seq<char>>::empty(),
            r.spec_temp_definitions() == Seq::<Definition>::empty(),
    {
        Self::from_definitions(Vec::new(), Vec::new())
    }

    /// A dictionary holding `definitions`, the one at each position named by the same
    /// position of `names`.
    pub fn from_definitions(definitions: Vec<Definition>, names: Vec<String>) -> (r: Self)
        requires definitions@.len() == names@.len(),
        ensures
            r.wf(),
            r.spec_names() == names_of(names@),
            r.spec_definitions() == definitions@,
            r.spec_temp_names() == Seq::<Seq<char>>::empty(),
            r.spec_temp_definitions() == Seq::<Definition>::empty(),
            r.spec_most_recent() == 0,
    {
        let r = DefinitionTable {
            names,
            definitions,
            most_recent: 0,
            temp_names: Vec::new(),
            temp_definitions: Vec::new(),
        };
        assert(names_of(r.temp_names@) =~= Seq::<Seq<char>>::empty());
        r
    }

    /// The definition a token stands for: a number pushes itself, a word is looked up.
    pub fn get_from_token(&self, token: Token) -> (r: Result<Definition, Error>)
        requires self.wf(),
        ensures
            match token {
                Token::Integer(i) => r == Ok::<Definition, Error>(
                    Definition { execution_token: ExecutionToken::Number(i), immediate: false },
                ),
                Token::Word(w) => lookup_result(self.spec_lookup(w@), r, w@),
            },
    {
        match token {
            Token::Integer(i) => Ok(Definition::new(ExecutionToken::Number(i), false)),
            Token::Word(word) => self.get_from_str(word.as_str()),
        }
    }

    /// The definition `name` currently stands for.
    pub fn get_from_str(&self, name: &str) -> (r: Result<Definition, Error>)
        requires self.wf(),
        ensures lookup_result(self.spec_lookup(name@), r, name@),
    {
        proof {
            lemma_latest_index_bounds(self.spec_names(), name@, self.spec_names().len());
            lemma_latest_index_bounds(self.spec_temp_names(), name@, self.spec_temp_names().len());
        }
        match self.get_nametag(name) {
            Ok(NameTag::Definition(i)) => Ok(self.definitions[i]),
            Ok(NameTag::TempDefinition(i)) => Ok(self.temp_definitions[i]),
            Err(e) => Err(e),
        }
    }

    pub fn get_by_index(&self, index: usize) -> (r: Result<Definition, Error>)
        ensures
            index < self.spec_definitions().len() ==> r == Ok::<Definition, Error>(self.spec_definitions()[index as int]),
            index >= self.spec_definitions().len() ==> r == Err::<Definition, Error>(Error::InvalidNumber),
    {
        if index >= self.definitions.len() {
            Err(Error::InvalidNumber)
        } else {
            Ok(self.definitions[index])
        }
    }

    pub fn set_by_index(&mut self, index: usize, definition: Definition) -> (r: ForthResult)
        requires old(self).wf(),
        ensures
            final(self).wf(),
            final(self).spec_names() == old(self).spec_names(),
            final(self).spec_temp_names() == old(self).spec_temp_names(),
            final(self).spec_temp_definitions() == old(self).spec_temp_definitions(),
            final(self).spec_most_recent() == old(self).spec_most_recent(),
            index < old(self).spec_definitions().len() ==> r is Ok && final(self).spec_definitions()
                == old(self).spec_definitions().update(index as int, definition),
            index >= old(self).spec_definitions().len() ==> r == Err::<(), Error>(Error::InvalidNumber)
                && final(self).spec_definitions() == old(self).spec_definitions(),
    {
        if index >= self.definitions.len() {
            Err(Error::InvalidNumber)
        } else {
            self.definitions.set(index, definition);
            Ok(())
        }
    }

    pub fn get_temp_by_index(&self, index: usize) -> (r: Result<Definition, Error>)
        ensures
            index < self.spec_temp_definitions().len() ==> r == Ok::<Definition, Error>(
                self.spec_temp_definitions()[index as int],
            ),
            index >= self.spec_temp_definitions().len() ==> r == Err::<Definition, Error>(Error::InvalidNumber),
    {
        if index >= self.temp_definitions.len() {
            Err(Error::InvalidNumber)
        } else {
            Ok(self.temp_definitions[index])
        }
    }

    pub fn set_temp_by_index(&mut self, index: usize, definition: Definition) -> (r: ForthResult)
        requires old(self).wf(),
        ensures
            final(self).wf(),
            final(self).spec_names() == old(self).spec_names(),
            final(self).spec_definitions() == old(self).spec_definitions(),
            final(self).spec_temp_names() == old(self).spec_temp_names(),
            final(self).spec_most_recent() == old(self).spec_most_recent(),
            index < old(self).spec_temp_definitions().len() ==> r is Ok && final(self).spec_temp_definitions()
                == old(self).spec_temp_definitions().update(index as int, definition),
            index >= old(self).spec_temp_definitions().len() ==> r == Err::<(), Error>(Error::InvalidNumber)
                && final(self).spec_temp_definitions() == old(self).spec_temp_definitions(),
    {
        if index >= self.temp_definitions.len() {
            Err(Error::InvalidNumber)
        } else {
            self.temp_definitions.set(index, definition);
            Ok(())
        }
    }

    /// Where `name` is defined: its latest definition, else its latest temporary one.
    pub fn get_nametag(&self, name: &str) -> (r: Result<NameTag, Error>)
        requires self.wf(),
        ensures
            ({
                let i = latest_index(self.spec_names(), name@, self.spec_names().len());
                let j = latest_index(self.spec_temp_names(), name@, self.spec_temp_names().len());
                if i >= 0 {
                    r matches Ok(NameTag::Definition(k)) && k == i
                } else if j >= 0 {
                    r matches Ok(NameTag::TempDefinition(k)) && k == j
                } else {
                    r matches Err(Error::UnknownWord(w)) && w@ == name@
                }
            }),
            r matches Ok(NameTag::Definition(i)) ==> i < self.spec_definitions().len(),
            r matches Ok(NameTag::TempDefinition(i)) ==> i < self.spec_temp_definitions().len(),
    {
        let key = String::from_str(name);
        proof {
            lemma_names_len(self.names@);
            lemma_names_len(self.temp_names@);
            lemma_latest_index_bounds(self.spec_names(), name@, self.spec_names().len());
            lemma_latest_index_bounds(self.spec_temp_names(), name@, self.spec_temp_names().len());
        }
        match find_latest(&self.names, &key) {
            Some(i) => Ok(NameTag::Definition(i)),
            None => match find_latest(&self.temp_names, &key) {
                Some(i) => Ok(NameTag::TempDefinition(i)),
                None => Err(Error::UnknownWord(key)),
            },
        }
    }

    /// Marks the latest definition as immediate.
    pub fn make_most_recent_immediate(&mut self)
        requires
            old(self).wf(),
            old(self).spec_definitions().len() > 0,
        ensures
            final(self).wf(),
            final(self).spec_names() == old(self).spec_names(),
            final(self).spec_temp_names() == old(self).spec_temp_names(),
            final(self).spec_temp_definitions() == old(self).spec_temp_definitions(),
            final(self).spec_most_recent() == old(self).spec_most_recent(),
            final(self).spec_definitions() == old(self).spec_definitions().update(
                old(self).spec_most_recent() as int,
                Definition {
                    immediate: true,
                    execution_token: old(self).spec_definitions()[old(self).spec_most_recent() as int].execution_token,
                },
            ),
    {
        let d = self.definitions[self.most_recent];
        self.definitions.set(self.most_recent, Definition { immediate: true, execution_token: d.execution_token });
    }

    /// The latest definition made by `add`.
    pub fn most_recent_definition(&self) -> (r: &Definition)
        requires
            self.wf(),
            self.spec_definitions().len() > 0,
        ensures *r == self.spec_definitions()[self.spec_most_recent() as int],
    {
        &self.definitions[self.most_recent]
    }

    /// Defines `word`, hiding any earlier definition of it.
    pub fn add(&mut self, word: String, definition: Definition)
        requires old(self).wf(),
        ensures
            final(self).wf(),
            final(self).spec_names() == old(self).spec_names().push(word@),
            final(self).spec_definitions() == old(self).spec_definitions().push(definition),
            final(self).spec_most_recent() == old(self).spec_definitions().len(),
            final(self).spec_temp_names() == old(self).spec_temp_names(),
            final(self).spec_temp_definitions() == old(self).spec_temp_definitions(),
    {
        let index = self.definitions.len();
        self.names.push(word);
        self.definitions.push(definition);
        self.most_recent = index;
        assert(names_of(self.names@) =~= names_of(old(self).names@).push(word@));
    }

    /// Adds a temporary definition of `word`.
    pub fn add_temp(&mut self, word: String, definition: Definition)
        requires old(self).wf(),
        ensures
            final(self).wf(),
            final(self).spec_names() == old(self).spec_names(),
            final(self).spec_definitions() == old(self).spec_definitions(),
            final(self).spec_most_recent() == old(self).spec_most_recent(),
            final(self).spec_temp_names() == old(self).spec_temp_names().push(word@),
            final(self).spec_temp_definitions() == old(self).spec_temp_definitions().push(definition),
    {
        self.temp_names.push(word);
        self.temp_definitions.push(definition);
        assert(names_of(self.temp_names@) =~= names_of(old(self).temp_names@).push(word@));
    }

    /// Forgets all temporary definitions.
    pub fn clear_temp(&mut self)
        requires old(self).wf(),
        ensures
            final(self).wf(),
            final(self).spec_names() == old(self).spec_names(),
            final(self).spec_definitions() == old(self).spec_definitions(),
            final(self).spec_most_recent() == old(self).spec_most_recent(),
            final(self).spec_temp_names() == Seq::<Seq<char>>::empty(),
            final(self).spec_temp_definitions() == Seq::<Definition>::empty(),
    {
        self.temp_names = Vec::new();
        self.temp_definitions = Vec::new();
        assert(names_of(self.temp_names@) =~= Seq::<Seq<char>>::empty());
    }

    /// A name under which `execution_token` is currently visible, if any: the name of a
    /// definition equal to it that no later definition of the same name hides.
    pub fn debug_only_get_name(&self, execution_token: ExecutionToken) -> (r: Option<String>)
        requires self.wf(),
        ensures
            match r {
                Some(w) => self.spec_name_of(execution_token) == Some(w@),
                None => self.spec_name_of(execution_token) is None,
            },
            r matches Some(w) ==> exists|i: int| 0 <= i < self.spec_definitions().len()
                && self.spec_names()[i] == w@
                && latest_index(self.spec_names(), w@, self.spec_names().len()) == i
                && self.spec_definitions()[i].execution_token == execution_token,
            r is None ==> forall|i: int| 0 <= i < self.spec_definitions().len()
                && latest_index(self.spec_names(), self.spec_names()[i], self.spec_names().len()) == i
                ==> self.spec_definitions()[i].execution_token != execution_token,
    {
        let mut i = self.definitions.len();
        while i > 0
            invariant
                self.wf(),
                i <= self.definitions@.len(),
                forall|k: int| i <= k < self.definitions@.len()
                    && latest_index(self.spec_names(), self.spec_names()[k], self.spec_names().len()) == k
                    ==> self.spec_definitions()[k].execution_token != execution_token,
                visible_index_of(self.spec_names(), self.spec_definitions(), execution_token, self.spec_definitions().len())
                    == visible_index_of(self.spec_names(), self.spec_definitions(), execution_token, i as nat),
            decreases i,
        {
            i = i - 1;
            if self.definitions[i].execution_token == execution_token {
                let name = self.names[i].clone();
                let latest = find_latest(&self.names, &name);
                assert(self.spec_names()[i as int] == self.names@[i as int]@);
                if latest == Some(i) {
                    proof { lemma_names_len(self.names@); }
                    assert(latest_index(self.spec_names(), name@, self.spec_names().len()) == i);
                    return Some(name);
                }
            }
        }
        None
    }

    /// Whether definition `index` is visible: no later definition has its name.
    pub fn is_visible_at(&self, index: usize) -> (r: bool)
        requires
            self.wf(),
            index < self.spec_definitions().len(),
        ensures r == is_visible(self.spec_names(), index as int),
    {
        proof { lemma_names_len(self.names@); }
        let latest = find_latest(&self.names, &self.names[index]);
        assert(self.spec_names()[index as int] == self.names@[index as int]@);
        latest == Some(index)
    }

    /// The names of the definitions, in the order they were made.
    pub fn debug_only_get_nametag_map(&self) -> (r: &Vec<String>)
        ensures
            names_of(r@) == self.spec_names(),
            self.wf() ==> r@.len() == self.spec_definitions().len(),
    {
        &self.names
    }
}

/// The last position of `names` holding `name`.
fn find_latest(names: &Vec<String>, name: &String) -> (r: Option<usize>)
    ensures
        r matches Some(k) ==> latest_index(names_of(names@), name@, names@.len()) == k as int,
        r is None <==> latest_index(names_of(names@), name@, names@.len()) < 0,
{
    let ghost all = names_of(names@);
    let mut i = names.len();
    while i > 0
        invariant
            i <= names@.len(),
            all == names_of(names@),
            latest_index(all, name@, names@.len() as nat) == latest_index(all, name@, i as nat),
        decreases i,
    {
        assert(all[i - 1] == names@[i - 1]@);
        if names[i - 1] == *name {
            return Some(i - 1);
        }
        i = i - 1;
    }
    None
}

} // verus!
