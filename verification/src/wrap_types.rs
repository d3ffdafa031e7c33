//! The wrapper module's data types: connections, provider handles, call
//! argument records and results, as the plugin interface declares them.

use vstd::prelude::*;

verus! {

/// A connection choice handed in by the caller: a node URL or a network
/// name or chain id.
pub struct Connection {
    /// The node URL to talk to, if one is pinned.
    pub node: Option<String>,
    /// The network name or chain id, if one is named.
    pub network_name_or_chain_id: Option<String>,
}

/// The connection record the provider plugin takes.
pub struct ProviderConnection {
    /// The node URL to talk to, if one is pinned.
    pub node: Option<String>,
    /// The network name or chain id, if one is named.
    pub network_name_or_chain_id: Option<String>,
}

impl ProviderConnection {
    /// An empty connection: no node, no network.
    pub fn new() -> (r: ProviderConnection)
        ensures
            r.node is None,
            r.network_name_or_chain_id is None,
    {
        ProviderConnection { node: None, network_name_or_chain_id: None }
    }

    /// A field-for-field copy.
    pub fn duplicate(&self) -> (r: ProviderConnection)
        ensures
            r.node == self.node,
            r.network_name_or_chain_id == self.network_name_or_chain_id,
    {
        ProviderConnection {
            node: match &self.node {
                Some(n) => Some(n.clone()),
                None => None,
            },
            network_name_or_chain_id: match &self.network_name_or_chain_id {
                Some(n) => Some(n.clone()),
                None => None,
            },
        }
    }
}

/// Turns an optional caller connection into the provider's record.
pub open spec fn provider_connection_of(c: Option<Connection>) -> Option<ProviderConnection> {
    match c {
        Some(conn) => Some(
            ProviderConnection {
                node: conn.node,
                network_name_or_chain_id: conn.network_name_or_chain_id,
            },
        ),
        None => None,
    }
}

fn convert_connection(connection: &Option<Connection>) -> (r: Option<ProviderConnection>)
    ensures
        r == provider_connection_of(*connection),
{
    match connection {
        Some(conn) => Some(
            ProviderConnection {
                node: match &conn.node {
                    Some(n) => Some(n.clone()),
                    None => None,
                },
                network_name_or_chain_id: match &conn.network_name_or_chain_id {
                    Some(n) => Some(n.clone()),
                    None => None,
                },
            },
        ),
        None => None,
    }
}

/// The handle of the provider plugin module.
pub struct ProviderModule {}

impl ProviderModule {
    /// The provider module handle carries no state.
    pub fn new() -> (r: ProviderModule) {
        ProviderModule {  }
    }
}

/// A provider bound to an optional connection.
pub struct PolywrapProvider {
    /// The connection the provider calls through, if any.
    pub connection: Option<ProviderConnection>,
}

impl PolywrapProvider {
    /// Binds a provider to the caller's connection choice.
    pub fn new(connection: &Option<Connection>) -> (r: Self)
        ensures
            r.connection == provider_connection_of(*connection),
    {
        PolywrapProvider { connection: convert_connection(connection) }
    }
}

/// A provider bound to an optional connection.
pub struct WrapProvider {
    /// The connection the provider calls through, if any.
    pub connection: Option<ProviderConnection>,
}

impl WrapProvider {
    /// Binds a provider to the caller's connection choice.
    pub fn new(connection: &Option<Connection>) -> (r: Self)
        ensures
            r.connection == provider_connection_of(*connection),
    {
        WrapProvider { connection: convert_connection(connection) }
    }
}

/// One entry of an EIP-2930 access list.
pub struct AccessItem {
    /// The account the entry speaks of.
    pub address: String,
    /// The storage keys the entry lists.
    pub storage_keys: Vec<String>,
}

impl AccessItem {
    /// An empty access entry.
    pub fn new() -> (r: AccessItem)
        ensures
            r.address@ == Seq::<char>::empty(),
            r.storage_keys@.len() == 0,
    {
        AccessItem { address: String::new(), storage_keys: Vec::new() }
    }
}

/// What a static contract call came to: its formatted result, or the
/// error text with the flag set.
pub struct StaticTxResult {
    /// The formatted call result, or the error text.
    pub result: String,
    /// Whether the call failed.
    pub error: bool,
}

impl StaticTxResult {
    /// An empty, non-failed result.
    pub fn new() -> (r: StaticTxResult)
        ensures
            r.result@ == Seq::<char>::empty(),
            r.error == false,
    {
        StaticTxResult { result: String::new(), error: false }
    }
}

/// Why signing failed.
pub enum SignerError {
    /// An EIP-712 payload could not be encoded.
    Eip712Error(String),
    /// A transaction could not be sent.
    SendError(String),
}

/// A handle on one registered provider implementation.
pub struct IProviderModule {
    /// The URI of the implementation to call.
    pub uri: String,
}

impl IProviderModule {
    /// A handle on the implementation at `uri`.
    pub fn new(uri: String) -> (r: IProviderModule)
        ensures
            r.uri == uri,
    {
        IProviderModule { uri }
    }
}

/// Picks the provider implementation to use: the first registered one.
/// The caller obtains the registered implementations from the host and
/// fails as the interface demands when there are none.
pub fn get_iprovider(implementations: &Vec<String>) -> (r: Result<IProviderModule, String>)
    ensures
        r is Ok <==> implementations@.len() >= 1,
        r matches Ok(m) ==> m.uri == implementations@[0],
{
    if implementations.len() < 1 {
        proof {
            reveal_strlit(
                "The Ethereum wrapper requires a registered implementation of the EthereumProvider interface",
            );
        }
        return Err(
            String::from_str(
                "The Ethereum wrapper requires a registered implementation of the EthereumProvider interface",
            ),
        );
    }
    Ok(IProviderModule::new(implementations[0].clone()))
}

/// The arguments of a chain id query: only the connection.
pub struct ArgsGetChainId {
    /// The connection to query over.
    pub connection: Option<ProviderConnection>,
}

/// The arguments of a read-only contract call.
pub struct ArgsCallContractView {
    /// The contract address.
    pub address: String,
    /// The human-readable method signature.
    pub method: String,
    /// The call arguments, one literal each.
    pub args: Option<Vec<String>>,
    /// The connection to call over.
    pub connection: Option<ProviderConnection>,
}

/// The arguments of a parameter encoding request.
pub struct ArgsEncodeParams {
    /// The type strings, one per value.
    pub types: Vec<String>,
    /// The value literals, one per type.
    pub values: Vec<String>,
    /// Ignored by the encoding; carried for interface uniformity.
    pub connection: Option<ProviderConnection>,
}

/// The arguments of a function-call encoding request.
pub struct ArgsEncodeFunction {
    /// The human-readable method signature.
    pub method: String,
    /// The call arguments, one literal each.
    pub args: Option<Vec<String>>,
    /// Ignored by the encoding; carried for interface uniformity.
    pub connection: Option<ProviderConnection>,
}

/// The arguments of a function-result decoding request.
pub struct ArgsDecodeFunction {
    /// The human-readable method signature.
    pub method: String,
    /// The call data to decode, hex.
    pub data: String,
    /// Ignored by the decoding; carried for interface uniformity.
    pub connection: Option<ProviderConnection>,
}

/// The arguments of a signer address query: only the connection.
pub struct ArgsGetSignerAddress {
    /// The connection whose signer is asked.
    pub connection: Option<ProviderConnection>,
}

/// The arguments of a gas price query: only the connection.
pub struct ArgsGetGasPrice {
    /// The connection to query over.
    pub connection: Option<ProviderConnection>,
}

/// The arguments of an EIP-1559 fee estimate: only the connection.
pub struct ArgsEstimateEip1559Fees {
    /// The connection to query over.
    pub connection: Option<ProviderConnection>,
}

/// The arguments of a raw JSON-RPC request.
pub struct ArgsSendRpc {
    /// The JSON-RPC method name.
    pub method: String,
    /// The positional parameters, one literal each.
    pub params: Vec<String>,
    /// The connection to send over.
    pub connection: Option<ProviderConnection>,
}

/// The arguments of an address well-formedness check.
pub struct ArgsCheckAddress {
    /// The address literal to check.
    pub address: String,
    /// Ignored by the check; carried for interface uniformity.
    pub connection: Option<ProviderConnection>,
}

/// The arguments of an ether-to-wei conversion.
pub struct ArgsToWei {
    /// The ether amount, a decimal literal.
    pub eth: String,
}

/// The arguments of a wei-to-ether conversion.
pub struct ArgsToEth {
    /// The wei amount, a decimal literal.
    pub wei: String,
}

/// The arguments of waiting for a transaction.
pub struct ArgsAwaitTransaction {
    /// The transaction hash to wait for.
    pub tx_hash: String,
    /// The connection to watch over.
    pub connection: Option<ProviderConnection>,
}

/// The arguments of signing a text message.
pub struct ArgsSignMessage {
    /// The message to sign.
    pub message: String,
    /// The connection whose signer signs.
    pub connection: Option<ProviderConnection>,
}

/// The arguments of a raw provider request.
pub struct ArgsRequest {
    /// The JSON-RPC method name.
    pub method: String,
    /// The serialized parameters, if any.
    pub params: Option<String>,
    /// The connection to send over.
    pub connection: Option<ProviderConnection>,
}

/// The arguments of signing a serialized transaction.
pub struct ArgsSignTransaction {
    /// The RLP bytes of the transaction.
    pub rlp: Vec<u8>,
    /// The connection whose signer signs.
    pub connection: Option<ProviderConnection>,
}

/// The arguments of a signer address query to the provider plugin.
pub struct ArgsAddress {
    /// The connection whose signer is asked.
    pub connection: Option<ProviderConnection>,
}

/// The arguments of a chain id query to the provider plugin.
pub struct ArgsChainId {
    /// The connection to query over.
    pub connection: Option<ProviderConnection>,
}

/// The arguments of a signer balance query.
pub struct ArgsGetSignerBalance {
    /// The block to read the balance at, a decimal block number, if any.
    pub block_tag: Option<String>,
    /// The connection whose signer is asked.
    pub connection: Option<ProviderConnection>,
}

/// The arguments of an account balance query.
pub struct ArgsGetBalance {
    /// The account address.
    pub address: String,
    /// The block to read the balance at, a decimal block number, if any.
    pub block_tag: Option<String>,
    /// The connection to query over.
    pub connection: Option<ProviderConnection>,
}

/// The arguments of a signer transaction count query.
pub struct ArgsGetSignerTransactionCount {
    /// The block to count at, a decimal block number, if any.
    pub block_tag: Option<String>,
    /// The connection whose signer is asked.
    pub connection: Option<ProviderConnection>,
}

/// An EIP-1559 fee estimate, each fee a decimal wei amount.
pub struct Eip1559FeesEstimate {
    /// The highest total fee per gas to pay.
    pub max_fee_per_gas: String,
    /// The highest priority fee per gas to pay.
    pub max_priority_fee_per_gas: String,
}

/// Transaction options: each fee or amount a decimal wei string, the
/// nonce a plain number, all optional.
pub struct TxOptions {
    /// The most gas the transaction may burn.
    pub gas_limit: Option<String>,
    /// The highest total fee per gas to pay.
    pub max_fee_per_gas: Option<String>,
    /// The highest priority fee per gas to pay.
    pub max_priority_fee_per_gas: Option<String>,
    /// The legacy gas price.
    pub gas_price: Option<String>,
    /// The wei amount to send along.
    pub value: Option<String>,
    /// The account nonce to use.
    pub nonce: Option<u32>,
}

impl TxOptions {
    /// Options that leave everything to the provider's defaults.
    pub fn new() -> (r: TxOptions)
        ensures
            r.gas_limit is None,
            r.max_fee_per_gas is None,
            r.max_priority_fee_per_gas is None,
            r.gas_price is None,
            r.value is None,
            r.nonce is None,
    {
        TxOptions {
            gas_limit: None,
            max_fee_per_gas: None,
            max_priority_fee_per_gas: None,
            gas_price: None,
            value: None,
            nonce: None,
        }
    }
}

/// The arguments of a static (dry-run) contract call.
pub struct ArgsCallContractStatic {
    /// The contract address.
    pub address: String,
    /// The human-readable method signature.
    pub method: String,
    /// The call arguments, one literal each.
    pub args: Option<Vec<String>>,
    /// The transaction options to simulate under.
    pub options: Option<TxOptions>,
    /// The connection to call over.
    pub connection: Option<ProviderConnection>,
}

/// The arguments of a contract deployment.
pub struct ArgsDeployContract {
    /// The contract ABI, as JSON.
    pub abi: String,
    /// The deployment bytecode, hex.
    pub bytecode: String,
    /// The constructor arguments, one literal each.
    pub args: Option<Vec<String>>,
    /// The transaction options to deploy under.
    pub options: Option<TxOptions>,
    /// The connection to deploy over.
    pub connection: Option<ProviderConnection>,
}

/// The arguments of estimating a contract call's gas.
pub struct ArgsEstimateContractCallGas {
    /// The contract address.
    pub address: String,
    /// The human-readable method signature.
    pub method: String,
    /// The call arguments, one literal each.
    pub args: Option<Vec<String>>,
    /// The transaction options to estimate under.
    pub options: Option<TxOptions>,
    /// The connection to estimate over.
    pub connection: Option<ProviderConnection>,
}

/// The arguments of a state-changing contract call.
pub struct ArgsCallContractMethod {
    /// The contract address.
    pub address: String,
    /// The human-readable method signature.
    pub method: String,
    /// The call arguments, one literal each.
    pub args: Option<Vec<String>>,
    /// The transaction options to send under.
    pub options: Option<TxOptions>,
    /// The connection to send over.
    pub connection: Option<ProviderConnection>,
}

/// The arguments of a state-changing contract call that waits for its
/// receipt.
pub struct ArgsCallContractMethodAndWait {
    /// The contract address.
    pub address: String,
    /// The human-readable method signature.
    pub method: String,
    /// The call arguments, one literal each.
    pub args: Option<Vec<String>>,
    /// The transaction options to send under.
    pub options: Option<TxOptions>,
    /// The connection to send over.
    pub connection: Option<ProviderConnection>,
}

/// A transaction request: addresses and data as hex strings, amounts as
/// decimal wei strings, all optional.
pub struct TxRequest {
    /// The recipient, if any.
    pub to: Option<String>,
    /// The sender, if any.
    pub from: Option<String>,
    /// The call data, hex, if any.
    pub data: Option<String>,
    /// The transaction envelope type.
    pub _type: Option<u32>,
    /// The chain to send on, in decimal.
    pub chain_id: Option<String>,
    /// The EIP-2930 access list, if any.
    pub access_list: Option<Vec<AccessItem>>,
    /// The most gas the transaction may burn.
    pub gas_limit: Option<String>,
    /// The highest total fee per gas to pay.
    pub max_fee_per_gas: Option<String>,
    /// The highest priority fee per gas to pay.
    pub max_priority_fee_per_gas: Option<String>,
    /// The legacy gas price.
    pub gas_price: Option<String>,
    /// The wei amount to send along.
    pub value: Option<String>,
    /// The account nonce to use.
    pub nonce: Option<u32>,
}

impl TxRequest {
    /// A request that leaves everything to the provider's defaults.
    pub fn new() -> (r: TxRequest)
        ensures
            r.to is None,
            r.from is None,
            r.data is None,
            r._type is None,
            r.chain_id is None,
            r.access_list is None,
            r.gas_limit is None,
            r.max_fee_per_gas is None,
            r.max_priority_fee_per_gas is None,
            r.gas_price is None,
            r.value is None,
            r.nonce is None,
    {
        TxRequest {
            to: None,
            from: None,
            data: None,
            _type: None,
            chain_id: None,
            access_list: None,
            gas_limit: None,
            max_fee_per_gas: None,
            max_priority_fee_per_gas: None,
            gas_price: None,
            value: None,
            nonce: None,
        }
    }
}

/// The arguments of estimating a transaction's gas.
pub struct ArgsEstimateTransactionGas {
    /// The transaction to estimate.
    pub tx: TxRequest,
    /// The connection to estimate over.
    pub connection: Option<ProviderConnection>,
}

/// The arguments of sending a transaction.
pub struct ArgsSendTransaction {
    /// The transaction to send.
    pub tx: TxRequest,
    /// The connection to send over.
    pub connection: Option<ProviderConnection>,
}

/// The arguments of sending a transaction and waiting for its receipt.
pub struct ArgsSendTransactionAndWait {
    /// The transaction to send.
    pub tx: TxRequest,
    /// The connection to send over.
    pub connection: Option<ProviderConnection>,
}

/// One event log of a transaction.
pub struct Log {
    /// The block the log was sealed in, a decimal block number.
    pub block_number: String,
    /// The hash of that block.
    pub block_hash: String,
    /// The transaction's index within the block.
    pub transaction_index: u32,
    /// Whether a reorganisation removed the log.
    pub removed: bool,
    /// The account that raised the log.
    pub address: String,
    /// The log's data, hex.
    pub data: String,
    /// The log's topics.
    pub topics: Vec<String>,
    /// The hash of the transaction.
    pub transaction_hash: String,
    /// The log's index within the block.
    pub log_index: u32,
}

impl Log {
    /// An empty log record.
    pub fn new() -> (r: Log)
        ensures
            r.block_number@ == Seq::<char>::empty(),
            r.topics@.len() == 0,
            r.removed == false,
    {
        Log {
            block_number: String::new(),
            block_hash: String::new(),
            transaction_index: 0,
            removed: false,
            address: String::new(),
            data: String::new(),
            topics: Vec::new(),
            transaction_hash: String::new(),
            log_index: 0,
        }
    }
}

/// The receipt of a sealed transaction; every amount a decimal string.
pub struct TxReceipt {
    /// The recipient.
    pub to: String,
    /// The sender.
    pub from: String,
    /// The created contract's address, where one was created.
    pub contract_address: String,
    /// The transaction's index within the block.
    pub transaction_index: u32,
    /// The post-state root, on pre-Byzantium chains.
    pub root: Option<String>,
    /// The gas the transaction burned.
    pub gas_used: String,
    /// The bloom filter over the logs.
    pub logs_bloom: String,
    /// The hash of the transaction.
    pub transaction_hash: String,
    /// The event logs the transaction raised.
    pub logs: Vec<Log>,
    /// The block the transaction was sealed in, a decimal number.
    pub block_number: String,
    /// The hash of that block.
    pub block_hash: String,
    /// How many confirmations the block has.
    pub confirmations: u32,
    /// The gas burned by the block up to this transaction.
    pub cumulative_gas_used: String,
    /// The gas price actually paid.
    pub effective_gas_price: String,
    /// The transaction envelope type.
    pub _type: u32,
    /// Whether the transaction succeeded, on post-Byzantium chains.
    pub status: Option<u32>,
}

impl TxReceipt {
    /// An empty receipt.
    pub fn new() -> (r: TxReceipt)
        ensures
            r.to@ == Seq::<char>::empty(),
            r.logs@.len() == 0,
            r.status is None,
    {
        TxReceipt {
            to: String::new(),
            from: String::new(),
            contract_address: String::new(),
            transaction_index: 0,
            root: None,
            gas_used: String::new(),
            logs_bloom: String::new(),
            transaction_hash: String::new(),
            logs: Vec::new(),
            block_number: String::new(),
            block_hash: String::new(),
            confirmations: 0,
            cumulative_gas_used: String::new(),
            effective_gas_price: String::new(),
            _type: 0,
            status: None,
        }
    }
}

/// A transaction as the provider reports it after sending; every amount
/// a decimal string.
pub struct TxResponse {
    /// The transaction hash.
    pub hash: String,
    /// The recipient, if any.
    pub to: Option<String>,
    /// The sender.
    pub from: String,
    /// The account nonce used.
    pub nonce: u32,
    /// The most gas the transaction may burn.
    pub gas_limit: String,
    /// The highest total fee per gas to pay.
    pub max_fee_per_gas: Option<String>,
    /// The highest priority fee per gas to pay.
    pub max_priority_fee_per_gas: Option<String>,
    /// The legacy gas price.
    pub gas_price: Option<String>,
    /// The wei amount sent along.
    pub value: String,
    /// The chain sent on, in decimal.
    pub chain_id: String,
    /// The block the transaction was sealed in, once it was.
    pub block_number: Option<String>,
    /// The hash of that block.
    pub block_hash: Option<String>,
    /// The block's timestamp.
    pub timestamp: Option<u32>,
    /// The signature's r value, hex.
    pub r: Option<String>,
    /// The signature's s value, hex.
    pub s: Option<String>,
    /// The signature's recovery value.
    pub v: Option<u32>,
    /// The transaction envelope type.
    pub _type: Option<u32>,
    /// The EIP-2930 access list, if any.
    pub access_list: Option<Vec<AccessItem>>,
}

impl TxResponse {
    /// An empty response.
    pub fn new() -> (r: TxResponse)
        ensures
            r.hash@ == Seq::<char>::empty(),
            r.to is None,
            r.access_list is None,
    {
        TxResponse {
            hash: String::new(),
            to: None,
            from: String::new(),
            nonce: 0,
            gas_limit: String::new(),
            max_fee_per_gas: None,
            max_priority_fee_per_gas: None,
            gas_price: None,
            value: String::new(),
            chain_id: String::new(),
            block_number: None,
            block_hash: None,
            timestamp: None,
            r: None,
            s: None,
            v: None,
            _type: None,
            access_list: None,
        }
    }
}

} // verus!
